use vstd::prelude::*;

verus! {

/// The character of a decimal digit.
pub open spec fn digit_char(d: nat) -> char {
    if d == 0 { '0' }
    else if d == 1 { '1' }
    else if d == 2 { '2' }
    else if d == 3 { '3' }
    else if d == 4 { '4' }
    else if d == 5 { '5' }
    else if d == 6 { '6' }
    else if d == 7 { '7' }
    else if d == 8 { '8' }
    else { '9' }
}

/// The decimal notation of a natural number, without leading zeros.
pub open spec fn decimal(n: nat) -> Seq<char>
    decreases n,
{
    if n < 10 {
        seq![digit_char(n)]
    } else {
        decimal(n / 10).push(digit_char(n % 10))
    }
}

/// The number that a character stands for as a decimal digit.
pub open spec fn digit_value(c: char) -> nat {
    if c == '1' { 1 }
    else if c == '2' { 2 }
    else if c == '3' { 3 }
    else if c == '4' { 4 }
    else if c == '5' { 5 }
    else if c == '6' { 6 }
    else if c == '7' { 7 }
    else if c == '8' { 8 }
    else if c == '9' { 9 }
    else { 0 }
}

/// The number that a string of decimal digits stands for.
pub open spec fn decimal_value(s: Seq<char>) -> nat
    decreases s.len(),
{
    if s.len() == 0 {
        0
    } else {
        decimal_value(s.drop_last()) * 10 + digit_value(s.last())
    }
}

/// Law: the decimal notation of a number is a non-empty string of digits,
/// starting with a non-zero digit unless the number is 0, that reads back as
/// the number itself.
pub proof fn law_decimal_reads_back(n: nat)
    ensures
        decimal(n).len() > 0,
        decimal_value(decimal(n)) == n,
        n > 0 ==> decimal(n)[0] != '0',
    decreases n,
{
    assert(digit_value(digit_char(n % 10)) == n % 10);
    if n >= 10 {
        law_decimal_reads_back(n / 10);
        assert(decimal(n).drop_last() =~= decimal(n / 10));
        assert(decimal(n)[0] == decimal(n / 10)[0]);
        assert(n == (n / 10) * 10 + n % 10);
        assert(decimal(n).last() == digit_char(n % 10));
        assert(decimal_value(decimal(n)) == decimal_value(decimal(n / 10)) * 10 + n % 10);
    } else {
        assert(decimal(n).drop_last() =~= Seq::<char>::empty());
        assert(n % 10 == n);
        assert(decimal_value(Seq::<char>::empty()) == 0);
    }
}

/// The number that a string of decimal digit characters stands for, each
/// character read as its distance from the character '0'.
pub open spec fn digits_number(s: Seq<char>) -> int
    decreases s.len(),
{
    if s.len() == 0 {
        0
    } else {
        digits_number(s.drop_last()) * 10 + (s.last() as int - '0' as int)
    }
}

/// Law: the decimal notation of a number is made of the characters '0' to
/// '9' only, is not empty, has no leading zero, and, each character read as
/// its distance from '0', stands for the number itself.
pub proof fn law_decimal_is_digits(n: nat)
    ensures
        forall|i: int| 0 <= i < decimal(n).len() ==> '0' <= #[trigger] decimal(n)[i] && decimal(n)[i] <= '9',
        decimal(n).len() > 0,
        digits_number(decimal(n)) == n,
        decimal(n).len() > 1 ==> decimal(n)[0] != '0',
    decreases n,
{
    law_decimal_reads_back(n);
    let d = n % 10;
    assert(digit_char(d) as int - '0' as int == d);
    assert('0' <= digit_char(d) && digit_char(d) <= '9');
    if n >= 10 {
        law_decimal_is_digits(n / 10);
        assert(decimal(n).drop_last() =~= decimal(n / 10));
        assert(decimal(n)[0] == decimal(n / 10)[0]);
        assert(n == (n / 10) * 10 + n % 10);
        assert(decimal(n).last() == digit_char(d));
        assert forall|i: int| 0 <= i < decimal(n).len() implies '0' <= #[trigger] decimal(n)[i]
            && decimal(n)[i] <= '9' by {
            if i < decimal(n).len() - 1 {
                assert(decimal(n)[i] == decimal(n / 10)[i]);
            }
        }
        assert(digits_number(decimal(n)) == digits_number(decimal(n / 10)) * 10 + d);
        assert(n / 10 > 0);
    } else {
        assert(decimal(n).drop_last() =~= Seq::<char>::empty());
        assert(n % 10 == n);
        assert(digits_number(Seq::<char>::empty()) == 0);
    }
}

/// The text of a digit, as a string slice.
fn digit_str(d: u32) -> (s: &'static str)
    requires
        d < 10,
    ensures
        s@ == seq![digit_char(d as nat)],
{
    if d == 0 {
        proof { reveal_strlit("0"); }
        "0"
    } else if d == 1 {
        proof { reveal_strlit("1"); }
        "1"
    } else if d == 2 {
        proof { reveal_strlit("2"); }
        "2"
    } else if d == 3 {
        proof { reveal_strlit("3"); }
        "3"
    } else if d == 4 {
        proof { reveal_strlit("4"); }
        "4"
    } else if d == 5 {
        proof { reveal_strlit("5"); }
        "5"
    } else if d == 6 {
        proof { reveal_strlit("6"); }
        "6"
    } else if d == 7 {
        proof { reveal_strlit("7"); }
        "7"
    } else if d == 8 {
        proof { reveal_strlit("8"); }
        "8"
    } else {
        proof { reveal_strlit("9"); }
        "9"
    }
}

/// Appends the decimal notation of `n` to `out`.
pub fn push_decimal(out: &mut String, n: u32)
    ensures
        final(out)@ == old(out)@ + decimal(n as nat),
        final(out)@.len() > old(out)@.len(),
        final(out)@.subrange(0, old(out)@.len() as int) == old(out)@,
        forall|i: int|
            old(out)@.len() <= i < final(out)@.len() ==> '0' <= #[trigger] final(out)@[i] && final(out)@[i] <= '9',
        digits_number(final(out)@.subrange(old(out)@.len() as int, final(out)@.len() as int)) == n,
        final(out)@.len() > old(out)@.len() + 1 ==> final(out)@[old(out)@.len() as int] != '0',
    decreases n,
{
    proof { law_decimal_is_digits(n as nat); }
    let ghost before = out@;
    if n < 10 {
        out.append(digit_str(n));
    } else {
        push_decimal(out, n / 10);
        out.append(digit_str(n % 10));
    }
    proof {
        assert(out@.subrange(before.len() as int, out@.len() as int) =~= decimal(n as nat));
        assert(out@.subrange(0, before.len() as int) =~= before);
        assert forall|i: int| before.len() <= i < out@.len() implies '0' <= #[trigger] out@[i] && out@[i] <= '9' by {
            assert(out@[i] == decimal(n as nat)[i - before.len()]);
        }
        if out@.len() > before.len() + 1 {
            assert(out@[before.len() as int] == decimal(n as nat)[0]);
        }
    }
}

/// The words that close a health-check reply.
pub open spec fn times_suffix() -> Seq<char> {
    seq![' ', 't', 'i', 'm', 'e', 's']
}

/// What the health check answers: the configured response, a space, the
/// number of earlier visits in decimal, and " times".
pub open spec fn health_text(response: Seq<char>, visit_count: nat) -> Seq<char> {
    response + seq![' '] + decimal(visit_count) + times_suffix()
}

/// Builds the health-check reply for the given response text and visit count.
pub fn health_reply(response: &String, visit_count: u32) -> (reply: String)
    ensures
        reply@ == health_text(response@, visit_count as nat),
        reply@.len() > response@.len() + 7,
        reply@.subrange(0, response@.len() as int) == response@,
        reply@[response@.len() as int] == ' ',
        reply@.subrange(reply@.len() - 6, reply@.len() as int) == seq![' ', 't', 'i', 'm', 'e', 's'],
        forall|i: int|
            response@.len() < i < reply@.len() - 6 ==> '0' <= #[trigger] reply@[i] && reply@[i] <= '9',
        digits_number(reply@.subrange(response@.len() + 1int, reply@.len() - 6)) == visit_count,
        reply@.len() > response@.len() + 8 ==> reply@[response@.len() + 1int] != '0',
{
    let mut reply = response.clone();
    proof { reveal_strlit(" "); }
    reply.append(" ");
    push_decimal(&mut reply, visit_count);
    proof { reveal_strlit(" times"); }
    reply.append(" times");
    assert(reply@ =~= health_text(response@, visit_count as nat));
    proof {
        let r = response@.len() as int;
        law_decimal_is_digits(visit_count as nat);
        let d = decimal(visit_count as nat);
        assert(reply@.subrange(0, r) =~= response@);
        assert(reply@.subrange(reply@.len() - 6, reply@.len() as int) =~= seq![' ', 't', 'i', 'm', 'e', 's']);
        assert(reply@.subrange(r + 1, reply@.len() - 6) =~= d);
        assert forall|i: int| r < i < reply@.len() - 6 implies '0' <= #[trigger] reply@[i] && reply@[i] <= '9' by {
            assert(reply@[i] == d[i - r - 1]);
        }
        if reply@.len() > r + 8 {
            assert(reply@[r + 1] == d[0]);
        }
    }
    reply
}

/// One health check: it answers the health text for the current count and
/// the unchanged response, and counts one more visit.
pub open spec fn health_step(
    response: Seq<char>,
    count: nat,
    next_response: Seq<char>,
    next_count: nat,
    reply: Seq<char>,
) -> bool {
    &&& reply == health_text(response, count)
    &&& next_response == response
    &&& next_count == count + 1
}

/// Law: over successive health checks that start at count `counts[0]`, the
/// i-th answer (counting from 0) reports `counts[0] + i`, the count ends at
/// `counts[0]` plus the number of checks, and it never decreases.
pub proof fn law_successive_health_checks(
    responses: Seq<Seq<char>>,
    counts: Seq<nat>,
    replies: Seq<Seq<char>>,
)
    requires
        counts.len() == replies.len() + 1,
        responses.len() == counts.len(),
        forall|i: int|
            0 <= i < replies.len() ==> health_step(
                responses[i],
                counts[i],
                responses[i + 1],
                counts[i + 1],
                #[trigger] replies[i],
            ),
    ensures
        forall|i: int|
            0 <= i < replies.len() ==> #[trigger] replies[i] == health_text(responses[0], counts[0] + i as nat),
        counts.last() == counts[0] + replies.len(),
        forall|i: int, j: int| 0 <= i <= j < counts.len() ==> counts[i] <= counts[j],
{
    assert forall|i: int| 0 <= i < counts.len() implies #[trigger] counts[i] == counts[0] + i
        && responses[i] == responses[0] by {
        lemma_health_prefix(responses, counts, replies, i);
    }
    assert forall|i: int| 0 <= i < replies.len() implies #[trigger] replies[i] == health_text(
        responses[0],
        counts[0] + i as nat,
    ) by {
        assert(counts[i] == counts[0] + i);
    }
    assert forall|i: int, j: int| 0 <= i <= j < counts.len() implies counts[i] <= counts[j] by {
        assert(counts[i] == counts[0] + i);
        assert(counts[j] == counts[0] + j);
    }
}

/// After `i` health checks the count has grown by `i` and the response is
/// unchanged.
proof fn lemma_health_prefix(
    responses: Seq<Seq<char>>,
    counts: Seq<nat>,
    replies: Seq<Seq<char>>,
    i: int,
)
    requires
        counts.len() == replies.len() + 1,
        responses.len() == counts.len(),
        forall|k: int|
            0 <= k < replies.len() ==> health_step(
                responses[k],
                counts[k],
                responses[k + 1],
                counts[k + 1],
                #[trigger] replies[k],
            ),
        0 <= i < counts.len(),
    ensures
        counts[i] == counts[0] + i,
        responses[i] == responses[0],
    decreases i,
{
    if i > 0 {
        lemma_health_prefix(responses, counts, replies, i - 1);
        assert(health_step(responses[i - 1], counts[i - 1], responses[i], counts[i], replies[i - 1]));
    }
}

} // verus!
