//! Escaping of text inside the export formats: JSON string literals,
//! Prometheus label values and CSV fields.
use vstd::prelude::*;

use crate::text::{chars_of, push_char, push_str};

verus! {

/// The places where text is written inside an export.
#[derive(Clone, Copy)]
pub enum TextStyle {
    /// The inside of a JSON string literal.
    Json,
    /// The inside of a Prometheus label value.
    Label,
    /// The inside of a quoted CSV field.
    Csv,
}

/// The lower-case hexadecimal digit of `d`.
pub open spec fn hex_char(d: nat) -> char {
    if d == 0 {
        '0'
    } else if d == 1 {
        '1'
    } else if d == 2 {
        '2'
    } else if d == 3 {
        '3'
    } else if d == 4 {
        '4'
    } else if d == 5 {
        '5'
    } else if d == 6 {
        '6'
    } else if d == 7 {
        '7'
    } else if d == 8 {
        '8'
    } else if d == 9 {
        '9'
    } else if d == 10 {
        'a'
    } else if d == 11 {
        'b'
    } else if d == 12 {
        'c'
    } else if d == 13 {
        'd'
    } else if d == 14 {
        'e'
    } else {
        'f'
    }
}

/// How one character is written in the given place.
///
/// In JSON, a quote and a backslash are escaped with a backslash, newline,
/// carriage return and tab by their short escapes, and every other control
/// character below U+0020 as `\u00XX`. In a Prometheus label value, a
/// backslash, a quote and a newline are escaped with a backslash. In a quoted
/// CSV field, a quote is doubled. Everything else stands as it is.
pub open spec fn escape_char(style: TextStyle, c: char) -> Seq<char> {
    match style {
        TextStyle::Json => if c == '"' {
            seq!['\\', '"']
        } else if c == '\\' {
            seq!['\\', '\\']
        } else if c == '\n' {
            seq!['\\', 'n']
        } else if c == '\r' {
            seq!['\\', 'r']
        } else if c == '\t' {
            seq!['\\', 't']
        } else if (c as nat) < 32 {
            seq!['\\', 'u', '0', '0', hex_char((c as nat) / 16), hex_char((c as nat) % 16)]
        } else {
            seq![c]
        },
        TextStyle::Label => if c == '\\' {
            seq!['\\', '\\']
        } else if c == '"' {
            seq!['\\', '"']
        } else if c == '\n' {
            seq!['\\', 'n']
        } else {
            seq![c]
        },
        TextStyle::Csv => if c == '"' {
            seq!['"', '"']
        } else {
            seq![c]
        },
    }
}

/// The text `s` written in the given place, character by character.
pub open spec fn escaped(style: TextStyle, s: Seq<char>) -> Seq<char>
    decreases s.len(),
{
    if s.len() == 0 {
        Seq::empty()
    } else {
        escaped(style, s.drop_last()) + escape_char(style, s.last())
    }
}

/// The JSON string literal of `s`.
#[verifier::opaque]
pub open spec fn json_string(s: Seq<char>) -> Seq<char> {
    seq!['"'] + escaped(TextStyle::Json, s) + seq!['"']
}

/// The characters that oblige a CSV field to be quoted.
pub open spec fn csv_special(c: char) -> bool {
    c == ',' || c == '"' || c == '\n' || c == '\r'
}

/// Whether `s` holds a character that obliges a CSV field to be quoted.
pub open spec fn needs_csv_quotes(s: Seq<char>) -> bool {
    exists|i: int| 0 <= i < s.len() && csv_special(#[trigger] s[i])
}

/// The CSV field of `s`: as it is, or quoted with its quotes doubled where it
/// holds a comma, a quote or a line break.
pub open spec fn csv_field(s: Seq<char>) -> Seq<char> {
    if needs_csv_quotes(s) {
        seq!['"'] + escaped(TextStyle::Csv, s) + seq!['"']
    } else {
        s
    }
}

fn hex_digit(d: u32) -> (c: char)
    requires
        d < 16,
    ensures
        c == hex_char(d as nat),
{
    if d == 0 {
        '0'
    } else if d == 1 {
        '1'
    } else if d == 2 {
        '2'
    } else if d == 3 {
        '3'
    } else if d == 4 {
        '4'
    } else if d == 5 {
        '5'
    } else if d == 6 {
        '6'
    } else if d == 7 {
        '7'
    } else if d == 8 {
        '8'
    } else if d == 9 {
        '9'
    } else if d == 10 {
        'a'
    } else if d == 11 {
        'b'
    } else if d == 12 {
        'c'
    } else if d == 13 {
        'd'
    } else if d == 14 {
        'e'
    } else {
        'f'
    }
}

fn push_pair(out: &mut String, a: char, b: char)
    ensures
        final(out)@ == old(out)@ + seq![a, b],
{
    push_char(out, a);
    push_char(out, b);
    assert(final(out)@ =~= old(out)@ + seq![a, b]);
}

/// Appends one character as it is written in the given place.
fn push_escaped_char(out: &mut String, style: TextStyle, c: char)
    ensures
        final(out)@ == old(out)@ + escape_char(style, c),
{
    match style {
        TextStyle::Json => {
            if c == '"' {
                push_pair(out, '\\', '"');
            } else if c == '\\' {
                push_pair(out, '\\', '\\');
            } else if c == '\n' {
                push_pair(out, '\\', 'n');
            } else if c == '\r' {
                push_pair(out, '\\', 'r');
            } else if c == '\t' {
                push_pair(out, '\\', 't');
            } else if (c as u32) < 32 {
                let code = c as u32;
                push_pair(out, '\\', 'u');
                push_pair(out, '0', '0');
                push_pair(out, hex_digit(code / 16), hex_digit(code % 16));
                assert(final(out)@ =~= old(out)@ + escape_char(style, c));
            } else {
                push_char(out, c);
                assert(final(out)@ =~= old(out)@ + escape_char(style, c));
            }
        },
        TextStyle::Label => {
            if c == '\\' {
                push_pair(out, '\\', '\\');
            } else if c == '"' {
                push_pair(out, '\\', '"');
            } else if c == '\n' {
                push_pair(out, '\\', 'n');
            } else {
                push_char(out, c);
                assert(final(out)@ =~= old(out)@ + escape_char(style, c));
            }
        },
        TextStyle::Csv => {
            if c == '"' {
                push_pair(out, '"', '"');
            } else {
                push_char(out, c);
                assert(final(out)@ =~= old(out)@ + escape_char(style, c));
            }
        },
    }
}

/// Appends `s` as it is written in the given place.
pub fn push_escaped(out: &mut String, style: TextStyle, s: &str)
    ensures
        final(out)@ == old(out)@ + escaped(style, s@),
{
    let cs = chars_of(s);
    let ghost start = out@;
    let mut i: usize = 0;
    while i < cs.len()
        invariant
            cs@ == s@,
            i <= cs@.len(),
            out@ == start + escaped(style, cs@.take(i as int)),
        decreases cs.len() - i,
    {
        push_escaped_char(out, style, cs[i]);
        proof {
            assert(cs@.take(i + 1).drop_last() =~= cs@.take(i as int));
            assert(out@ =~= start + escaped(style, cs@.take(i + 1)));
        }
        i = i + 1;
    }
    proof {
        assert(cs@.take(cs@.len() as int) =~= cs@);
    }
}

/// Appends the JSON string literal of `s`.
pub fn push_json_string(out: &mut String, s: &str)
    ensures
        final(out)@ == old(out)@ + json_string(s@),
{
    push_char(out, '"');
    push_escaped(out, TextStyle::Json, s);
    push_char(out, '"');
    reveal(json_string);
    assert(final(out)@ =~= old(out)@ + json_string(s@));
}

/// Whether `s` holds a comma, a quote or a line break.
fn csv_needs_quotes(s: &str) -> (b: bool)
    ensures
        b == needs_csv_quotes(s@),
{
    let cs = chars_of(s);
    let mut i: usize = 0;
    while i < cs.len()
        invariant
            cs@ == s@,
            i <= cs@.len(),
            forall|k: int| 0 <= k < i ==> !csv_special(#[trigger] s@[k]),
        decreases cs.len() - i,
    {
        let c = cs[i];
        if c == ',' || c == '"' || c == '\n' || c == '\r' {
            assert(csv_special(s@[i as int]));
            return true;
        }
        i = i + 1;
    }
    false
}

/// Appends the CSV field of `s`.
pub fn push_csv_field(out: &mut String, s: &str)
    ensures
        final(out)@ == old(out)@ + csv_field(s@),
{
    if csv_needs_quotes(s) {
        push_char(out, '"');
        push_escaped(out, TextStyle::Csv, s);
        push_char(out, '"');
        assert(final(out)@ =~= old(out)@ + csv_field(s@));
    } else {
        push_str(out, s);
    }
}

/// The character that a JSON short escape (a backslash and `c`) stands for.
pub open spec fn short_escape(c: char) -> Option<char> {
    if c == '"' {
        Some('"')
    } else if c == '\\' {
        Some('\\')
    } else if c == '/' {
        Some('/')
    } else if c == 'b' {
        Some('\u{8}')
    } else if c == 'f' {
        Some('\u{c}')
    } else if c == 'n' {
        Some('\n')
    } else if c == 'r' {
        Some('\r')
    } else if c == 't' {
        Some('\t')
    } else {
        None
    }
}

/// The value of a hexadecimal digit, either case.
pub open spec fn hex_value(c: char) -> Option<nat> {
    if '0' <= c && c <= '9' {
        Some((c as nat - '0' as nat) as nat)
    } else if 'a' <= c && c <= 'f' {
        Some((c as nat - 'a' as nat + 10) as nat)
    } else if 'A' <= c && c <= 'F' {
        Some((c as nat - 'A' as nat + 10) as nat)
    } else {
        None
    }
}

/// The value of four hexadecimal digits.
pub open spec fn hex4(a: char, b: char, c: char, d: char) -> Option<nat> {
    match (hex_value(a), hex_value(b), hex_value(c), hex_value(d)) {
        (Some(w), Some(x), Some(y), Some(z)) => Some(((w * 16 + x) * 16 + y) * 16 + z),
        _ => None,
    }
}

/// `c` in front of a decoded text, if there is one.
pub open spec fn prepend(c: char, rest: Option<Seq<char>>) -> Option<Seq<char>> {
    match rest {
        Some(r) => Some(seq![c] + r),
        None => None,
    }
}

/// The text that written text `t` stands for in the given place, or `None`
/// where `t` cannot stand there. Inside a JSON string literal: no
/// unescaped quote or control character, and every backslash starts a short
/// escape or a `\uXXXX` escape. Inside a Prometheus label value: no
/// unescaped quote or newline, and every backslash starts `\\`, `\"` or
/// `\n`. Inside a quoted CSV field: every quote is doubled.
pub open spec fn decode(style: TextStyle, t: Seq<char>) -> Option<Seq<char>>
    decreases t.len(),
{
    if t.len() == 0 {
        Some(Seq::empty())
    } else {
        match style {
            TextStyle::Json => if t[0] == '\\' {
                if t.len() >= 2 && short_escape(t[1]) is Some {
                    prepend(short_escape(t[1])->0, decode(style, t.skip(2)))
                } else if t.len() >= 6 && t[1] == 'u' && hex4(t[2], t[3], t[4], t[5]) is Some {
                    prepend((hex4(t[2], t[3], t[4], t[5])->0) as char, decode(style, t.skip(6)))
                } else {
                    None
                }
            } else if t[0] == '"' || (t[0] as nat) < 32 {
                None
            } else {
                prepend(t[0], decode(style, t.skip(1)))
            },
            TextStyle::Label => if t[0] == '\\' {
                if t.len() >= 2 && (t[1] == '\\' || t[1] == '"') {
                    prepend(t[1], decode(style, t.skip(2)))
                } else if t.len() >= 2 && t[1] == 'n' {
                    prepend('\n', decode(style, t.skip(2)))
                } else {
                    None
                }
            } else if t[0] == '"' || t[0] == '\n' {
                None
            } else {
                prepend(t[0], decode(style, t.skip(1)))
            },
            TextStyle::Csv => if t[0] == '"' {
                if t.len() >= 2 && t[1] == '"' {
                    prepend('"', decode(style, t.skip(2)))
                } else {
                    None
                }
            } else {
                prepend(t[0], decode(style, t.skip(1)))
            },
        }
    }
}

proof fn lemma_hex_round_trip(d: nat)
    requires
        d < 16,
    ensures
        hex_value(hex_char(d)) == Some(d),
{
}

proof fn lemma_decode_escape_char(style: TextStyle, c: char, x: Seq<char>)
    ensures
        decode(style, escape_char(style, c) + x) == prepend(c, decode(style, x)),
{
    let t = escape_char(style, c) + x;
    if escape_char(style, c).len() == 2 {
        assert(t.skip(2) =~= x);
    } else if escape_char(style, c).len() == 6 {
        let n = c as nat;
        lemma_hex_round_trip(n / 16);
        lemma_hex_round_trip(n % 16);
        assert(t[2] == '0' && t[3] == '0');
        assert(hex4(t[2], t[3], t[4], t[5]) == Some(n));
        assert(t.skip(6) =~= x);
    } else {
        assert(t.skip(1) =~= x);
    }
}

proof fn lemma_escaped_front(style: TextStyle, s: Seq<char>)
    requires
        s.len() > 0,
    ensures
        escaped(style, s) == escape_char(style, s[0]) + escaped(style, s.drop_first()),
    decreases s.len(),
{
    if s.len() == 1 {
        assert(s.drop_last() =~= Seq::<char>::empty());
        assert(s.drop_first() =~= Seq::<char>::empty());
        assert(escaped(style, s) =~= escape_char(style, s[0]) + escaped(style, s.drop_first()));
    } else {
        lemma_escaped_front(style, s.drop_last());
        assert(s.drop_last().drop_first() =~= s.drop_first().drop_last());
        assert(s.drop_first().last() == s.last());
        assert(escaped(style, s) =~= escape_char(style, s[0]) + escaped(style, s.drop_first()));
    }
}

proof fn lemma_decode_escaped(style: TextStyle, s: Seq<char>, x: Seq<char>)
    ensures
        decode(style, escaped(style, s) + x) == (match decode(style, x) {
            Some(r) => Some(s + r),
            None => None,
        }),
    decreases s.len(),
{
    if s.len() == 0 {
        assert(escaped(style, s) + x =~= x);
        match decode(style, x) {
            Some(r) => {
                assert(s + r =~= r);
            },
            None => {},
        }
    } else {
        lemma_escaped_front(style, s);
        let rest = s.drop_first();
        assert(escaped(style, s) + x =~= escape_char(style, s[0]) + (escaped(style, rest) + x));
        lemma_decode_escape_char(style, s[0], escaped(style, rest) + x);
        lemma_decode_escaped(style, rest, x);
        match decode(style, x) {
            Some(r) => {
                assert(seq![s[0]] + (rest + r) =~= s + r);
            },
            None => {},
        }
    }
}

/// Written text in any place stands for the text itself.
pub proof fn law_escaped_round_trip(style: TextStyle, s: Seq<char>)
    ensures
        decode(style, escaped(style, s)) == Some(s),
{
    lemma_decode_escaped(style, s, Seq::empty());
    assert(escaped(style, s) + Seq::<char>::empty() =~= escaped(style, s));
    assert(s + Seq::<char>::empty() =~= s);
}

/// Every text is written as a valid JSON string literal that stands for the
/// text itself: a quote, an inside that decodes back to the text, and a
/// closing quote.
pub proof fn law_json_string_round_trip(s: Seq<char>)
    ensures
        json_string(s).len() >= 2,
        json_string(s)[0] == '"',
        json_string(s).last() == '"',
        decode(TextStyle::Json, json_string(s).subrange(1, json_string(s).len() - 1)) == Some(s),
{
    reveal(json_string);
    let t = json_string(s);
    assert(t.subrange(1, t.len() - 1) =~= escaped(TextStyle::Json, s));
    law_escaped_round_trip(TextStyle::Json, s);
}

/// Every text is written as a valid CSV field that stands for the text
/// itself: unquoted when it holds no comma, quote or line break, and else in
/// quotes with an inside that decodes back to the text.
pub proof fn law_csv_field_round_trip(s: Seq<char>)
    ensures
        !needs_csv_quotes(s) ==> csv_field(s) == s,
        needs_csv_quotes(s) ==> {
            let t = csv_field(s);
            &&& t.len() >= 2
            &&& t[0] == '"'
            &&& t.last() == '"'
            &&& decode(TextStyle::Csv, t.subrange(1, t.len() - 1)) == Some(s)
        },
{
    if needs_csv_quotes(s) {
        let t = csv_field(s);
        assert(t.subrange(1, t.len() - 1) =~= escaped(TextStyle::Csv, s));
        law_escaped_round_trip(TextStyle::Csv, s);
    }
}

} // verus!
