//! JSON text as the host reads it: string escaping and the flat objects of
//! string members that describe operations, with the proofs that both read
//! back exactly.
use vstd::prelude::*;

use crate::text::push_char;

verus! {

/// The lower-case hexadecimal digit for `n` (`n < 16`).
pub open spec fn hex_digit_spec(n: nat) -> char {
    seq!['0', '1', '2', '3', '4', '5', '6', '7', '8', '9', 'a', 'b', 'c', 'd', 'e', 'f'][n as int]
}

/// Whether `c` belongs to the Unicode general category `Cc` (control codes):
/// U+0000..=U+001F and U+007F..=U+009F.
pub open spec fn is_control_spec(c: char) -> bool {
    (c as u32) <= 0x1f || (0x7f <= (c as u32) && (c as u32) <= 0x9f)
}

/// Returns whether `c` is a control character (general category `Cc`).
pub fn is_control(c: char) -> (r: bool)
    ensures
        r == is_control_spec(c),
{
    let v = c as u32;
    v <= 0x1f || (0x7f <= v && v <= 0x9f)
}


/// Four lower-case hexadecimal digits of `v` (`v < 0x10000`), most significant first.
pub open spec fn hex4_spec(v: nat) -> Seq<char> {
    seq![
        hex_digit_spec((v / 4096) % 16),
        hex_digit_spec((v / 256) % 16),
        hex_digit_spec((v / 16) % 16),
        hex_digit_spec(v % 16),
    ]
}

/// The JSON string-body form of one character.
pub open spec fn escape_char(c: char) -> Seq<char> {
    if c == '"' {
        seq!['\\', '"']
    } else if c == '\\' {
        seq!['\\', '\\']
    } else if c == '\n' {
        seq!['\\', 'n']
    } else if c == '\r' {
        seq!['\\', 'r']
    } else if c == '\t' {
        seq!['\\', 't']
    } else if c == '\u{08}' {
        seq!['\\', 'b']
    } else if c == '\u{0c}' {
        seq!['\\', 'f']
    } else if is_control_spec(c) {
        seq!['\\', 'u'] + hex4_spec(c as u32 as nat)
    } else {
        seq![c]
    }
}

/// The JSON string-body form of `s`, character by character.
pub open spec fn json_escape(s: Seq<char>) -> Seq<char>
    decreases s.len(),
{
    if s.len() == 0 {
        Seq::empty()
    } else {
        json_escape(s.drop_last()) + escape_char(s.last())
    }
}

fn hex_digit(n: u32) -> (c: char)
    requires
        n < 16,
    ensures
        c == hex_digit_spec(n as nat),
{
    let digits: [char; 16] = ['0', '1', '2', '3', '4', '5', '6', '7', '8', '9', 'a', 'b', 'c', 'd', 'e', 'f'];
    digits[n as usize]
}

/// Appends the JSON string-body form of `c` to `output`.
fn push_escaped_char(output: &mut String, c: char)
    ensures
        final(output)@ == old(output)@ + escape_char(c),
{
    if c == '"' {
        push_char(output, '\\');
        push_char(output, '"');
    } else if c == '\\' {
        push_char(output, '\\');
        push_char(output, '\\');
    } else if c == '\n' {
        push_char(output, '\\');
        push_char(output, 'n');
    } else if c == '\r' {
        push_char(output, '\\');
        push_char(output, 'r');
    } else if c == '\t' {
        push_char(output, '\\');
        push_char(output, 't');
    } else if c == '\u{08}' {
        push_char(output, '\\');
        push_char(output, 'b');
    } else if c == '\u{0c}' {
        push_char(output, '\\');
        push_char(output, 'f');
    } else if is_control(c) {
        let v = c as u32;
        push_char(output, '\\');
        push_char(output, 'u');
        push_char(output, hex_digit((v / 4096) % 16));
        push_char(output, hex_digit((v / 256) % 16));
        push_char(output, hex_digit((v / 16) % 16));
        push_char(output, hex_digit(v % 16));
    } else {
        push_char(output, c);
    }
    assert(final(output)@ =~= old(output)@ + escape_char(c));
}

/// Appends the JSON string-body form of `input` to `output`: quotes,
/// backslashes and control characters are escaped, everything else is copied.
pub fn push_json_string_content(output: &mut String, input: &str)
    ensures
        final(output)@ == old(output)@ + json_escape(input@),
{
    let ghost start = output@;
    for ch in iter: input.chars()
        invariant
            iter.seq() == input@,
            output@ == start + json_escape(input@.take(iter.index() as int)),
    {
        let ghost before = input@.take(iter.index() as int);
        push_escaped_char(output, ch);
        assert(input@.take(iter.index() + 1).drop_last() =~= before);
    }
    assert(input@.take(input@.len() as int) =~= input@);
}


/// One `"key":"value"` member of a payload object.
pub open spec fn json_member(key: Seq<char>, value: Seq<char>) -> Seq<char> {
    seq!['"'] + json_escape(key) + seq!['"', ':', '"'] + json_escape(value) + seq!['"']
}

/// The members of a payload object, separated by commas.
pub open spec fn json_members(fields: Seq<(Seq<char>, Seq<char>)>) -> Seq<char>
    decreases fields.len(),
{
    if fields.len() == 0 {
        Seq::empty()
    } else if fields.len() == 1 {
        json_member(fields[0].0, fields[0].1)
    } else {
        json_members(fields.drop_last()) + seq![','] + json_member(
            fields.last().0,
            fields.last().1,
        )
    }
}

/// The JSON object whose members are `fields`, in order, every value a string.
pub open spec fn payload_spec(fields: Seq<(Seq<char>, Seq<char>)>) -> Seq<char> {
    seq!['{'] + json_members(fields) + seq!['}']
}

/// The key/value pairs of `fields` as character sequences.
pub open spec fn fields_view(fields: Seq<(&str, String)>) -> Seq<(Seq<char>, Seq<char>)> {
    fields.map_values(|f: (&str, String)| (f.0@, f.1@))
}

/// Appends the member `"key":"value"` to `payload`.
fn push_member(payload: &mut String, key: &str, value: &str)
    ensures
        final(payload)@ == old(payload)@ + json_member(key@, value@),
{
    push_char(payload, '"');
    push_json_string_content(payload, key);
    push_char(payload, '"');
    push_char(payload, ':');
    push_char(payload, '"');
    push_json_string_content(payload, value);
    push_char(payload, '"');
    assert(payload@ =~= old(payload)@ + json_member(key@, value@));
}

/// Builds a JSON object whose members are the given key/value pairs, in
/// order, with every value a JSON string.
pub fn string_payload(fields: &[(&str, String)]) -> (payload: String)
    ensures
        payload@ == payload_spec(fields_view(fields@)),
{
    let mut payload = String::new();
    push_char(&mut payload, '{');
    let n = fields.len();
    for index in 0..n
        invariant
            n == fields@.len(),
            payload@ == seq!['{'] + json_members(fields_view(fields@.take(index as int))),
    {
        let (key, value) = &fields[index];
        if index > 0 {
            push_char(&mut payload, ',');
        }
        push_member(&mut payload, key, value.as_str());
        proof {
            let taken = fields_view(fields@.take(index + 1));
            assert(taken.drop_last() =~= fields_view(fields@.take(index as int)));
            assert(taken.last() == (key@, value@));
            assert(payload@ =~= seq!['{'] + json_members(taken));
        }
    }
    push_char(&mut payload, '}');
    assert(fields@.take(n as int) =~= fields@);
    assert(payload@ =~= payload_spec(fields_view(fields@)));
    payload
}


/// The value of a hexadecimal digit of either case.
pub open spec fn hex_value(c: char) -> Option<nat> {
    if '0' <= c && c <= '9' {
        Some((c as nat - '0' as nat) as nat)
    } else if 'a' <= c && c <= 'f' {
        Some((c as nat - 'a' as nat + 10) as nat)
    } else if 'A' <= c && c <= 'F' {
        Some((c as nat - 'A' as nat + 10) as nat)
    } else {
        None
    }
}

/// The value of four hexadecimal digits, most significant first.
pub open spec fn hex4_value(s: Seq<char>) -> Option<nat> {
    match (hex_value(s[0]), hex_value(s[1]), hex_value(s[2]), hex_value(s[3])) {
        (Some(a), Some(b), Some(c), Some(d)) => Some(a * 4096 + b * 256 + c * 16 + d),
        _ => None,
    }
}

/// The character that a one-letter escape (after a backslash) stands for.
pub open spec fn simple_unescape(c: char) -> Option<char> {
    if c == '"' {
        Some('"')
    } else if c == '\\' {
        Some('\\')
    } else if c == '/' {
        Some('/')
    } else if c == 'b' {
        Some('\u{08}')
    } else if c == 'f' {
        Some('\u{0c}')
    } else if c == 'n' {
        Some('\n')
    } else if c == 'r' {
        Some('\r')
    } else if c == 't' {
        Some('\t')
    } else {
        None
    }
}

/// Whether `v` is a code point that a single `\uXXXX` escape can denote on its own.
pub open spec fn is_bmp_scalar(v: nat) -> bool {
    v < 0xd800 || (0xe000 <= v && v < 0x10000)
}

/// Reads the body of a JSON string up to its closing quote, as RFC 8259
/// defines it (surrogate pairs aside): returns the decoded characters and
/// what follows the closing quote, or `None` where `s` is no such body.
pub open spec fn read_json_string(s: Seq<char>) -> Option<(Seq<char>, Seq<char>)>
    decreases s.len(),
{
    if s.len() == 0 {
        None
    } else if s[0] == '"' {
        Some((Seq::empty(), s.drop_first()))
    } else if s[0] == '\\' {
        if s.len() < 2 {
            None
        } else if s[1] == 'u' {
            if s.len() < 6 {
                None
            } else {
                match hex4_value(s.subrange(2, 6)) {
                    Some(v) => if is_bmp_scalar(v) {
                        match read_json_string(s.skip(6)) {
                            Some((body, rest)) => Some((seq![v as char] + body, rest)),
                            None => None,
                        }
                    } else {
                        None
                    },
                    None => None,
                }
            }
        } else {
            match simple_unescape(s[1]) {
                Some(c) => match read_json_string(s.skip(2)) {
                    Some((body, rest)) => Some((seq![c] + body, rest)),
                    None => None,
                },
                None => None,
            }
        }
    } else if (s[0] as u32) < 0x20 {
        None
    } else {
        match read_json_string(s.drop_first()) {
            Some((body, rest)) => Some((seq![s[0]] + body, rest)),
            None => None,
        }
    }
}

pub proof fn lemma_escape_concat(a: Seq<char>, b: Seq<char>)
    ensures
        json_escape(a + b) == json_escape(a) + json_escape(b),
    decreases b.len(),
{
    if b.len() == 0 {
        assert(a + b =~= a);
        assert(json_escape(a) + json_escape(b) =~= json_escape(a));
    } else {
        lemma_escape_concat(a, b.drop_last());
        assert((a + b).drop_last() =~= a + b.drop_last());
        assert((a + b).last() == b.last());
        assert(json_escape(a + b) =~= json_escape(a) + json_escape(b));
    }
}

proof fn lemma_escape_first(s: Seq<char>)
    requires
        s.len() > 0,
    ensures
        json_escape(s) == escape_char(s[0]) + json_escape(s.drop_first()),
{
    lemma_escape_concat(seq![s[0]], s.drop_first());
    assert(seq![s[0]] + s.drop_first() =~= s);
    assert(seq![s[0]].drop_last() =~= Seq::<char>::empty());
    assert(seq![s[0]].last() == s[0]);
    assert(json_escape(Seq::<char>::empty()) =~= Seq::<char>::empty());
    assert(json_escape(seq![s[0]]) =~= escape_char(s[0]));
}

proof fn lemma_hex_digit_value(n: nat)
    requires
        n < 16,
    ensures
        hex_value(hex_digit_spec(n)) == Some(n),
{
    let digits = seq!['0', '1', '2', '3', '4', '5', '6', '7', '8', '9', 'a', 'b', 'c', 'd', 'e', 'f'];
    assert(hex_digit_spec(n) == digits[n as int]);
    if n == 0 {} else if n == 1 {} else if n == 2 {} else if n == 3 {} else if n == 4 {}
    else if n == 5 {} else if n == 6 {} else if n == 7 {} else if n == 8 {} else if n == 9 {}
    else if n == 10 {} else if n == 11 {} else if n == 12 {} else if n == 13 {} else if n == 14 {}
    else {}
}

proof fn lemma_hex4_value(v: nat)
    requires
        v < 0x10000,
    ensures
        hex4_value(hex4_spec(v)) == Some(v),
{
    lemma_hex_digit_value((v / 4096) % 16);
    lemma_hex_digit_value((v / 256) % 16);
    lemma_hex_digit_value((v / 16) % 16);
    lemma_hex_digit_value(v % 16);
    assert(((v / 4096) % 16) * 4096 + ((v / 256) % 16) * 256 + ((v / 16) % 16) * 16 + v % 16 == v)
        by (nonlinear_arith)
        requires
            v < 0x10000,
    ;
}

/// Reading the escaped form of one character consumes exactly that form.
proof fn lemma_read_escaped_char(c: char, after: Seq<char>)
    ensures
        read_json_string(escape_char(c) + after) == match read_json_string(after) {
            Some((body, rest)) => Some((seq![c] + body, rest)),
            None => None,
        },
{
    let input = escape_char(c) + after;
    if c == '"' || c == '\\' || c == '\n' || c == '\r' || c == '\t' || c == '\u{08}'
        || c == '\u{0c}' {
        assert(input.skip(2) =~= after);
    } else if is_control_spec(c) {
        let u = c as u32;
        let v = u as nat;
        lemma_hex4_value(v);
        assert(input.subrange(2, 6) =~= hex4_spec(v));
        assert(input.skip(6) =~= after);
        assert((u as char) == c);
        assert((v as char) == c);
    } else {
        assert(input.drop_first() =~= after);
    }
}

/// The escaped form of `s`, closed by a quote, reads back as `s` and leaves
/// whatever followed the quote.
pub proof fn lemma_read_escaped(s: Seq<char>, rest: Seq<char>)
    ensures
        read_json_string(json_escape(s) + seq!['"'] + rest) == Some((s, rest)),
    decreases s.len(),
{
    let input = json_escape(s) + seq!['"'] + rest;
    if s.len() == 0 {
        assert(input =~= seq!['"'] + rest);
        assert(input.drop_first() =~= rest);
    } else {
        let tail = s.drop_first();
        lemma_escape_first(s);
        lemma_read_escaped(tail, rest);
        let after = json_escape(tail) + seq!['"'] + rest;
        assert(input =~= escape_char(s[0]) + after);
        lemma_read_escaped_char(s[0], after);
        assert(seq![s[0]] + tail =~= s);
    }
}

/// Law: the text that `push_json_string_content` appends is the body of a
/// JSON string that decodes to exactly the input.
pub proof fn law_escape_round_trip(s: Seq<char>)
    ensures
        read_json_string(json_escape(s) + seq!['"']) == Some((s, Seq::<char>::empty())),
{
    lemma_read_escaped(s, Seq::empty());
    assert(json_escape(s) + seq!['"'] + Seq::<char>::empty() =~= json_escape(s) + seq!['"']);
}


/// Reads `"key":"value"` members separated by commas up to the closing brace
/// of an object; returns the members and what follows the brace.
pub open spec fn read_members(s: Seq<char>) -> Option<(Seq<(Seq<char>, Seq<char>)>, Seq<char>)>
    decreases s.len(),
{
    if s.len() == 0 || s[0] != '"' {
        None
    } else {
        match read_json_string(s.drop_first()) {
            Some((key, r1)) => if r1.len() < 2 || r1[0] != ':' || r1[1] != '"' {
                None
            } else {
                match read_json_string(r1.skip(2)) {
                    Some((value, r2)) => if r2.len() == 0 || r2.len() >= s.len() {
                        None
                    } else if r2[0] == '}' {
                        Some((seq![(key, value)], r2.drop_first()))
                    } else if r2[0] == ',' {
                        match read_members(r2.drop_first()) {
                            Some((more, r3)) => Some((seq![(key, value)] + more, r3)),
                            None => None,
                        }
                    } else {
                        None
                    },
                    None => None,
                }
            },
            None => None,
        }
    }
}

/// Reads a JSON object all of whose members have string values; `None`
/// where `s` is not exactly such an object.
pub open spec fn read_payload(s: Seq<char>) -> Option<Seq<(Seq<char>, Seq<char>)>> {
    if s.len() == 2 && s[0] == '{' && s[1] == '}' {
        Some(Seq::empty())
    } else if s.len() > 0 && s[0] == '{' {
        match read_members(s.drop_first()) {
            Some((fields, rest)) => if rest.len() == 0 {
                Some(fields)
            } else {
                None
            },
            None => None,
        }
    } else {
        None
    }
}

proof fn lemma_members_first(fields: Seq<(Seq<char>, Seq<char>)>)
    requires
        fields.len() >= 2,
    ensures
        json_members(fields) == json_member(fields[0].0, fields[0].1) + seq![','] + json_members(
            fields.drop_first(),
        ),
    decreases fields.len(),
{
    let rest = fields.drop_first();
    let first = json_member(fields[0].0, fields[0].1);
    if fields.len() == 2 {
        assert(fields.drop_last().len() == 1 && fields.drop_last()[0] == fields[0]);
        assert(json_members(fields.drop_last()) == first);
        assert(rest.len() == 1 && rest[0] == fields.last());
        assert(json_members(rest) == json_member(fields.last().0, fields.last().1));
        assert(json_members(fields) =~= first + seq![','] + json_members(rest));
    } else {
        let init = fields.drop_last();
        lemma_members_first(init);
        assert(init.drop_first() =~= rest.drop_last());
        assert(rest.last() == fields.last());
        assert(init[0] == fields[0]);
        assert(json_members(rest) == json_members(rest.drop_last()) + seq![','] + json_member(
            rest.last().0,
            rest.last().1,
        ));
        assert(json_members(fields) =~= first + seq![','] + json_members(rest));
    }
}

proof fn lemma_read_member(key: Seq<char>, value: Seq<char>, after: Seq<char>)
    ensures
        ({
            let input = json_member(key, value) + after;
            &&& read_json_string(input.drop_first()) matches Some((k, r1))
            &&& k == key
            &&& r1.len() >= 2 && r1[0] == ':' && r1[1] == '"'
            &&& read_json_string(r1.skip(2)) == Some((value, after))
        }),
{
    let input = json_member(key, value) + after;
    let r1 = seq![':', '"'] + json_escape(value) + seq!['"'] + after;
    assert(input.drop_first() =~= json_escape(key) + seq!['"'] + r1);
    lemma_read_escaped(key, r1);
    assert(r1.skip(2) =~= json_escape(value) + seq!['"'] + after);
    lemma_read_escaped(value, after);
}

#[verifier::spinoff_prover]
#[verifier::rlimit(40)]
proof fn lemma_read_members(fields: Seq<(Seq<char>, Seq<char>)>, rest: Seq<char>)
    requires
        fields.len() >= 1,
    ensures
        read_members(json_members(fields) + seq!['}'] + rest) == Some((fields, rest)),
    decreases fields.len(),
{
    let f = fields[0];
    if fields.len() == 1 {
        let after = seq!['}'] + rest;
        let input = json_members(fields) + seq!['}'] + rest;
        assert(input =~= json_member(f.0, f.1) + after);
        lemma_read_member(f.0, f.1, after);
        assert(after.drop_first() =~= rest);
        assert(seq![(f.0, f.1)] =~= fields);
    } else {
        let more = fields.drop_first();
        lemma_members_first(fields);
        let after = seq![','] + json_members(more) + seq!['}'] + rest;
        let input = json_members(fields) + seq!['}'] + rest;
        assert(input =~= json_member(f.0, f.1) + after);
        lemma_read_member(f.0, f.1, after);
        assert(after.drop_first() =~= json_members(more) + seq!['}'] + rest);
        lemma_read_members(more, rest);
        assert(seq![(f.0, f.1)] + more =~= fields);
    }
}

/// Law: the payload that `string_payload` builds is a JSON object whose
/// members read back as exactly the given key/value pairs, in order.
pub proof fn law_payload_round_trip(fields: Seq<(Seq<char>, Seq<char>)>)
    ensures
        read_payload(payload_spec(fields)) == Some(fields),
{
    let p = payload_spec(fields);
    if fields.len() == 0 {
        assert(p =~= seq!['{', '}']);
        assert(fields =~= Seq::<(Seq<char>, Seq<char>)>::empty());
    } else {
        lemma_read_members(fields, Seq::empty());
        assert(p.drop_first() =~= json_members(fields) + seq!['}'] + Seq::<char>::empty());
        assert(p.len() > 2);
    }
}

} // verus!
