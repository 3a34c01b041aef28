//! JSON string escaping and the JSON reports printed by `--cache-stats` and
//! `--clear-cache`.
use vstd::prelude::*;
use crate::text::{
    decimal, hex_digit, hex_width, lemma_hex_width_digits, push_char, push_decimal, push_hex,
};

verus! {

broadcast use vstd::string::group_string_axioms;

/// The escaped form of one character inside a JSON string literal.
pub open spec fn json_escape_char(c: char) -> Seq<char> {
    if c == '\\' {
        seq!['\\', '\\']
    } else if c == '"' {
        seq!['\\', '"']
    } else if c == '\n' {
        seq!['\\', 'n']
    } else if c == '\r' {
        seq!['\\', 'r']
    } else if c == '\t' {
        seq!['\\', 't']
    } else if (c as int) < 0x20 {
        seq!['\\', 'u'] + hex_width(c as int as nat, 4)
    } else {
        seq![c]
    }
}

/// The escaped form of a text: each character escaped in turn.
pub open spec fn json_escape_text(s: Seq<char>) -> Seq<char>
    decreases s.len(),
{
    if s.len() == 0 {
        Seq::empty()
    } else {
        json_escape_char(s[0]) + json_escape_text(s.drop_first())
    }
}

/// The value of a hexadecimal digit character (lower case).
pub open spec fn hex_digit_value(c: char) -> nat {
    if 48 <= c as int && c as int <= 57 {
        (c as int - 48) as nat
    } else if 97 <= c as int && c as int <= 102 {
        (c as int - 87) as nat
    } else {
        0
    }
}

/// The value of a run of hexadecimal digits, most significant first.
pub open spec fn hex_value(s: Seq<char>) -> nat
    decreases s.len(),
{
    if s.len() == 0 {
        0
    } else {
        hex_value(s.drop_last()) * 16 + hex_digit_value(s.last())
    }
}

/// Reads back the body of a JSON string literal: the escapes `\\`, `\"`,
/// `\n`, `\r`, `\t` and `\uXXXX` stand for one character each, and any
/// other character stands for itself.
pub open spec fn json_unescape_text(s: Seq<char>) -> Seq<char>
    decreases s.len(),
{
    if s.len() == 0 {
        Seq::empty()
    } else if s[0] == '\\' && s.len() >= 2 && s[1] == 'u' && s.len() >= 6 {
        seq![hex_value(s.subrange(2, 6)) as char] + json_unescape_text(s.skip(6))
    } else if s[0] == '\\' && s.len() >= 2 && (s[1] == '\\' || s[1] == '"') {
        seq![s[1]] + json_unescape_text(s.skip(2))
    } else if s[0] == '\\' && s.len() >= 2 && s[1] == 'n' {
        seq!['\n'] + json_unescape_text(s.skip(2))
    } else if s[0] == '\\' && s.len() >= 2 && s[1] == 'r' {
        seq!['\r'] + json_unescape_text(s.skip(2))
    } else if s[0] == '\\' && s.len() >= 2 && s[1] == 't' {
        seq!['\t'] + json_unescape_text(s.skip(2))
    } else {
        seq![s[0]] + json_unescape_text(s.drop_first())
    }
}

/// Escaping a text with one more character at its end appends that
/// character's escape.
pub proof fn lemma_json_escape_push(s: Seq<char>, c: char)
    ensures
        json_escape_text(s.push(c)) == json_escape_text(s) + json_escape_char(c),
    decreases s.len(),
{
    if s.len() == 0 {
        assert(s.push(c).drop_first() =~= Seq::<char>::empty());
        assert(json_escape_text(Seq::<char>::empty()) =~= Seq::<char>::empty());
        assert(s.push(c)[0] == c);
        assert(json_escape_text(s.push(c)) =~= json_escape_char(c) + json_escape_text(Seq::<char>::empty()));
        assert(json_escape_text(s.push(c)) =~= json_escape_char(c));
    } else {
        lemma_json_escape_push(s.drop_first(), c);
        assert(s.push(c).drop_first() =~= s.drop_first().push(c));
        assert(json_escape_text(s.push(c)) =~= json_escape_char(s[0]) + (json_escape_text(
            s.drop_first(),
        ) + json_escape_char(c)));
    }
}

/// Reading back `width` zero-padded hex digits of a number below 32 gives
/// the number (the `\u` escapes of control characters).
proof fn lemma_hex_value_small(n: nat, width: nat)
    requires
        n < 16 || (width >= 2 && n < 256),
        width >= 1,
    ensures
        hex_value(hex_width(n, width)) == n,
    decreases width,
{
    let h = hex_width(n, width);
    assert(h == hex_width(n / 16, (width - 1) as nat).push(hex_digit(n % 16)));
    assert(h.drop_last() =~= hex_width(n / 16, (width - 1) as nat));
    lemma_hex_digit_value(n % 16);
    if n < 16 {
        lemma_hex_value_zero((width - 1) as nat);
    } else {
        lemma_hex_value_small(n / 16, (width - 1) as nat);
    }
}

proof fn lemma_hex_value_zero(width: nat)
    ensures
        hex_value(hex_width(0, width)) == 0,
    decreases width,
{
    if width > 0 {
        let h = hex_width(0, width);
        assert(h.drop_last() =~= hex_width(0, (width - 1) as nat));
        lemma_hex_digit_value(0);
        lemma_hex_value_zero((width - 1) as nat);
    }
}

pub(crate) proof fn lemma_hex_digit_value(d: nat)
    requires
        d < 16,
    ensures
        hex_digit_value(hex_digit(d)) == d,
{
}

/// Reading back the escape of one character, followed by any text, gives
/// that character followed by the reading of the text.
proof fn lemma_unescape_char(c: char, t: Seq<char>)
    ensures
        json_unescape_text(json_escape_char(c) + t) == seq![c] + json_unescape_text(t),
{
    let e = json_escape_char(c);
    let u = e + t;
    if c == '\\' || c == '"' || c == '\n' || c == '\r' || c == '\t' {
        assert(u.skip(2) =~= t);
    } else if (c as int) < 0x20 {
        let h = hex_width(c as int as nat, 4);
        lemma_hex_width_digits(c as int as nat, 4);
        assert(u.subrange(2, 6) =~= h);
        assert(u.skip(6) =~= t);
        lemma_hex_value_small(c as int as nat, 4);
    } else {
        assert(u.drop_first() =~= t);
    }
}

/// Reading the escaped form of a text back as the body of a JSON string
/// literal gives back the same text: escaping loses nothing.
pub proof fn law_json_unescape_inverts_escape(s: Seq<char>)
    ensures
        json_unescape_text(json_escape_text(s)) == s,
    decreases s.len(),
{
    if s.len() == 0 {
        assert(json_escape_text(s) =~= Seq::<char>::empty());
    } else {
        law_json_unescape_inverts_escape(s.drop_first());
        lemma_unescape_char(s[0], json_escape_text(s.drop_first()));
        assert(seq![s[0]] + s.drop_first() =~= s);
    }
}

/// The escaped form of any text holds no control character below U+0020,
/// so it can stand inside a JSON string literal.
pub proof fn law_json_escape_has_no_control_chars(s: Seq<char>)
    ensures
        forall|i: int|
            0 <= i < json_escape_text(s).len() ==> json_escape_text(s)[i] as int >= 0x20,
    decreases s.len(),
{
    if s.len() > 0 {
        law_json_escape_has_no_control_chars(s.drop_first());
        let c = s[0];
        let e = json_escape_char(c);
        let rest = json_escape_text(s.drop_first());
        if (c as int) < 0x20 && c != '\n' && c != '\r' && c != '\t' {
            lemma_hex_width_digits(c as int as nat, 4);
        }
        assert forall|i: int| 0 <= i < e.len() implies e[i] as int >= 0x20 by {
            if (c as int) < 0x20 && c != '\n' && c != '\r' && c != '\t' && i >= 2 {
                assert(e[i] == hex_width(c as int as nat, 4)[i - 2]);
            }
        }
        assert forall|i: int| 0 <= i < (e + rest).len() implies (e + rest)[i] as int >= 0x20 by {
            if i >= e.len() {
                assert((e + rest)[i] == rest[i - e.len()]);
            }
        }
    }
}

/// The scalar value of a character.
fn char_code(c: char) -> (n: u32)
    ensures
        n as int == c as int,
{
    c as u32
}

/// True for the control characters below U+0020.
fn is_control_char(c: char) -> (r: bool)
    ensures
        r == ((c as int) < 0x20),
{
    let space: char = ' ';
    c < space
}

/// Appends the JSON-escaped form of `value`.
pub fn push_json_escaped(out: &mut String, value: &str)
    ensures
        final(out)@ == old(out)@ + json_escape_text(value@),
{
    let ghost start = out@;
    assert(json_escape_text(value@.take(0)) =~= Seq::<char>::empty());
    assert(out@ =~= start + json_escape_text(value@.take(0)));
    for c in it: value.chars()
        invariant
            it.seq() == value@,
            out@ == start + json_escape_text(value@.take(it.index() as int)),
    {
        let ghost i = it.index();
        proof {
            assert(value@.take(i + 1) =~= value@.take(i).push(c));
            lemma_json_escape_push(value@.take(i), c);
        }
        let ghost before = out@;
        if c == '\\' {
            push_char(out, '\\');
            push_char(out, '\\');
            assert(out@ =~= before + json_escape_char(c));
        } else if c == '"' {
            push_char(out, '\\');
            push_char(out, '"');
            assert(out@ =~= before + json_escape_char(c));
        } else if c == '\n' {
            push_char(out, '\\');
            push_char(out, 'n');
            assert(out@ =~= before + json_escape_char(c));
        } else if c == '\r' {
            push_char(out, '\\');
            push_char(out, 'r');
            assert(out@ =~= before + json_escape_char(c));
        } else if c == '\t' {
            push_char(out, '\\');
            push_char(out, 't');
            assert(out@ =~= before + json_escape_char(c));
        } else if is_control_char(c) {
            let code = char_code(c);
            push_char(out, '\\');
            push_char(out, 'u');
            push_hex(out, code as u64, 4);
            assert(out@ =~= before + json_escape_char(c));
        } else {
            push_char(out, c);
            assert(out@ =~= before + json_escape_char(c));
        }
        assert(out@ =~= start + json_escape_text(value@.take(i + 1)));
    }
    assert(value@.take(value@.len() as int) =~= value@);
}

/// Escapes `value` for use inside a JSON string literal: backslash, double
/// quote, newline, carriage return and tab get their short escapes, other
/// control characters below U+0020 become `\u` with four lowercase hex
/// digits, and every other character is kept.
pub fn json_escape(value: &str) -> (r: String)
    ensures
        r@ == json_escape_text(value@),
{
    let mut out = String::new();
    push_json_escaped(&mut out, value);
    assert(out@ =~= json_escape_text(value@));
    out
}

} // verus!

verus! {

/// The report printed by `--cache-stats`.
pub open spec fn cache_stats_text(root: Seq<char>, entries: u64, bytes: u64) -> Seq<char> {
    "{\n  \"cache\": \""@ + json_escape_text(root) + "\",\n  \"entries\": "@ + decimal(
        entries as nat,
    ) + ",\n  \"bytes\": "@ + decimal(bytes as nat) + "\n}"@
}

/// The report printed by `--clear-cache`.
pub open spec fn cache_cleared_text(root: Seq<char>) -> Seq<char> {
    "{\n  \"cache\": \""@ + json_escape_text(root) + "\",\n  \"deleted\": true\n}"@
}

/// The JSON report of the cache directory `root`: its path, its number of
/// entries and its size in bytes.
pub fn cache_stats_report(root: &str, entries: u64, bytes: u64) -> (r: String)
    ensures
        r@ == cache_stats_text(root@, entries, bytes),
{
    let mut out = String::from_str("{\n  \"cache\": \"");
    push_json_escaped(&mut out, root);
    out.append("\",\n  \"entries\": ");
    push_decimal(&mut out, entries as u128);
    out.append(",\n  \"bytes\": ");
    push_decimal(&mut out, bytes as u128);
    out.append("\n}");
    out
}

/// The JSON report that the cache directory `root` was emptied.
pub fn cache_cleared_report(root: &str) -> (r: String)
    ensures
        r@ == cache_cleared_text(root@),
{
    let mut out = String::from_str("{\n  \"cache\": \"");
    push_json_escaped(&mut out, root);
    out.append("\",\n  \"deleted\": true\n}");
    out
}

} // verus!

verus! {

/// Text without a backslash, a double quote or a control character below
/// U+0020 is left exactly as it is (other characters, U+007F and non-ASCII
/// included, are never escaped).
pub proof fn law_plain_text_is_kept(s: Seq<char>)
    requires
        forall|i: int|
            0 <= i < s.len() ==> #[trigger] s[i] != '\\' && s[i] != '"' && s[i] as int >= 0x20,
    ensures
        json_escape_text(s) == s,
    decreases s.len(),
{
    if s.len() > 0 {
        assert(s[0] != '\\' && s[0] != '"' && s[0] as int >= 0x20);
        law_plain_text_is_kept(s.drop_first());
        assert(seq![s[0]] + s.drop_first() =~= s);
    } else {
        assert(json_escape_text(s) =~= s);
    }
}

/// The short escapes: backslash, double quote, newline, carriage return and
/// tab each become a backslash and one letter; the other control
/// characters become `\u` and four hexadecimal digits whose value is the
/// character's.
pub proof fn law_escape_forms(c: char)
    ensures
        c == '\\' ==> json_escape_char(c) == seq!['\\', '\\'],
        c == '"' ==> json_escape_char(c) == seq!['\\', '"'],
        c == '\n' ==> json_escape_char(c) == seq!['\\', 'n'],
        c == '\r' ==> json_escape_char(c) == seq!['\\', 'r'],
        c == '\t' ==> json_escape_char(c) == seq!['\\', 't'],
        (c as int) < 0x20 && c != '\n' && c != '\r' && c != '\t' ==> {
            let e = json_escape_char(c);
            &&& e.len() == 6
            &&& e[0] == '\\' && e[1] == 'u'
            &&& hex_value(e.subrange(2, 6)) == c as int
        },
{
    if (c as int) < 0x20 && c != '\n' && c != '\r' && c != '\t' {
        let e = json_escape_char(c);
        lemma_hex_width_digits(c as int as nat, 4);
        assert(e.subrange(2, 6) =~= hex_width(c as int as nat, 4));
        lemma_hex_value_small(c as int as nat, 4);
    }
}

} // verus!
