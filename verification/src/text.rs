//! Text building blocks: single characters, decimal numbers and
//! space-joined lists appended to strings.
use vstd::prelude::*;

verus! {

/// Appends `c` to `s`.
#[verifier::external_body]
pub(crate) fn push_char(s: &mut String, c: char)
    ensures
        final(s)@ == old(s)@.push(c),
{
    s.push(c);
}

/// The decimal digit for `n` (`n < 10`).
pub open spec fn decimal_digit(n: nat) -> char {
    seq!['0', '1', '2', '3', '4', '5', '6', '7', '8', '9'][n as int]
}

/// The decimal representation of `n`, without sign or leading zeros.
pub open spec fn decimal_spec(n: nat) -> Seq<char>
    decreases n,
{
    if n < 10 {
        seq![decimal_digit(n)]
    } else {
        decimal_spec(n / 10).push(decimal_digit(n % 10))
    }
}

/// `items` joined by single spaces.
pub open spec fn join_spaced(items: Seq<Seq<char>>) -> Seq<char>
    decreases items.len(),
{
    if items.len() == 0 {
        Seq::empty()
    } else if items.len() == 1 {
        items[0]
    } else {
        join_spaced(items.drop_last()) + seq![' '] + items.last()
    }
}

/// The character sequences of a slice of strings.
pub open spec fn strings_view(items: Seq<String>) -> Seq<Seq<char>> {
    items.map_values(|s: String| s@)
}

fn digit_char(n: u64) -> (c: char)
    requires
        n < 10,
    ensures
        c == decimal_digit(n as nat),
{
    let digits: [char; 10] = ['0', '1', '2', '3', '4', '5', '6', '7', '8', '9'];
    digits[n as usize]
}

/// Appends the decimal representation of `n` to `out`.
pub fn push_decimal(out: &mut String, n: u64)
    ensures
        final(out)@ == old(out)@ + decimal_spec(n as nat),
    decreases n,
{
    if n >= 10 {
        push_decimal(out, n / 10);
    }
    push_char(out, digit_char(n % 10));
    assert(final(out)@ =~= old(out)@ + decimal_spec(n as nat));
}


/// The value of `s` read as a base-10 numeral, its last character the units
/// digit.
pub open spec fn numeral_value(s: Seq<char>) -> int
    decreases s.len(),
{
    if s.len() == 0 {
        0
    } else {
        numeral_value(s.drop_last()) * 10 + (s.last() as int - '0' as int)
    }
}

/// Whether `c` is one of the characters `0` to `9`.
pub open spec fn is_decimal_digit(c: char) -> bool {
    '0' as int <= c as int <= '9' as int
}

proof fn lemma_decimal_digit(d: nat)
    requires
        d < 10,
    ensures
        decimal_digit(d) as int - '0' as int == d,
        is_decimal_digit(decimal_digit(d)),
{
    let digits = seq!['0', '1', '2', '3', '4', '5', '6', '7', '8', '9'];
    assert(digits[0] == '0' && digits[1] == '1' && digits[2] == '2' && digits[3] == '3' && digits[4] == '4');
    assert(digits[5] == '5' && digits[6] == '6' && digits[7] == '7' && digits[8] == '8' && digits[9] == '9');
}

/// Law: the text `push_decimal` appends for `n` is a base-10 numeral whose
/// value is `n`: at least one character, all of them digits, and no leading
/// zero unless `n` is 0.
pub proof fn law_decimal_is_numeral(n: nat)
    ensures
        decimal_spec(n).len() >= 1,
        numeral_value(decimal_spec(n)) == n,
        forall|i: int| 0 <= i < decimal_spec(n).len() ==> is_decimal_digit(#[trigger] decimal_spec(n)[i]),
        decimal_spec(n)[0] == '0' ==> n == 0,
    decreases n,
{
    if n < 10 {
        lemma_decimal_digit(n);
        let s = decimal_spec(n);
        assert(s.drop_last() =~= Seq::<char>::empty());
        assert(numeral_value(s.drop_last()) == 0);
        assert(s.last() == decimal_digit(n));
        assert(numeral_value(s) == n);
    } else {
        law_decimal_is_numeral(n / 10);
        lemma_decimal_digit(n % 10);
        let head = decimal_spec(n / 10);
        let s = decimal_spec(n);
        assert(s == head.push(decimal_digit(n % 10)));
        assert(s.drop_last() =~= head);
        assert(numeral_value(s) == numeral_value(head) * 10 + (n % 10));
        assert(n == (n / 10) * 10 + n % 10);
        assert(s[0] == head[0]);
        assert forall|i: int| 0 <= i < s.len() implies is_decimal_digit(#[trigger] s[i]) by {
            if i < head.len() {
                assert(s[i] == head[i]);
            }
        }
    }
}

/// Law: joining splits at the first item as well as at the last: no items
/// give nothing, one item gives itself, and two or more give the first item,
/// one space, and the rest joined. So every item appears, in order, with
/// exactly one space between neighbours.
pub proof fn law_join_spaced_front(items: Seq<Seq<char>>)
    ensures
        items.len() == 0 ==> join_spaced(items) == Seq::<char>::empty(),
        items.len() == 1 ==> join_spaced(items) == items[0],
        items.len() >= 2 ==> join_spaced(items) == items[0] + seq![' '] + join_spaced(items.drop_first()),
    decreases items.len(),
{
    if items.len() >= 2 {
        let rest = items.drop_first();
        let init = items.drop_last();
        if items.len() == 2 {
            assert(init.len() == 1 && init[0] == items[0]);
            assert(rest.len() == 1 && rest[0] == items.last());
            assert(join_spaced(init) == items[0]);
            assert(join_spaced(rest) == items.last());
        } else {
            law_join_spaced_front(init);
            assert(init.drop_first() =~= rest.drop_last());
            assert(init[0] == items[0]);
            assert(rest.last() == items.last());
            assert(join_spaced(rest) == join_spaced(rest.drop_last()) + seq![' '] + rest.last());
            assert(join_spaced(items) =~= items[0] + seq![' '] + join_spaced(rest));
        }
    }
}

/// Appends `s` to `out`.
pub fn push_str(out: &mut String, s: &str)
    ensures
        final(out)@ == old(out)@ + s@,
{
    out.append(s);
}

/// `items` joined by single spaces, as `[String]::join(" ")` builds it.
pub fn join_with_spaces(items: &[String]) -> (joined: String)
    ensures
        joined@ == join_spaced(strings_view(items@)),
{
    let mut joined = String::new();
    let n = items.len();
    for i in 0..n
        invariant
            n == items@.len(),
            joined@ == join_spaced(strings_view(items@.take(i as int))),
    {
        if i > 0 {
            push_char(&mut joined, ' ');
        }
        push_str(&mut joined, items[i].as_str());
        proof {
            let taken = strings_view(items@.take(i + 1));
            assert(taken.drop_last() =~= strings_view(items@.take(i as int)));
            assert(taken.last() == items@[i as int]@);
            assert(joined@ =~= join_spaced(taken));
        }
    }
    assert(items@.take(n as int) =~= items@);
    joined
}

} // verus!
