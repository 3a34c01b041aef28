//! Character-level building blocks shared by the other modules: literal
//! comparison, digit rendering and appending to a `String`.
use vstd::prelude::*;

verus! {

broadcast use vstd::string::group_string_axioms;

/// The lowercase hexadecimal digit for a value below sixteen.
pub open spec fn hex_digit(d: nat) -> char {
    if d < 10 {
        (d + 48) as char
    } else {
        (d + 87) as char
    }
}

/// The decimal digit for a value below ten.
pub open spec fn decimal_digit(d: nat) -> char {
    (d + 48) as char
}

/// The last `width` hexadecimal digits of `n`, most significant first,
/// padded with zeros on the left.
pub open spec fn hex_width(n: nat, width: nat) -> Seq<char>
    decreases width,
{
    if width == 0 {
        Seq::empty()
    } else {
        hex_width(n / 16, (width - 1) as nat).push(hex_digit(n % 16))
    }
}

/// The decimal rendering of `n` without leading zeros.
pub open spec fn decimal(n: nat) -> Seq<char>
    decreases n,
{
    if n < 10 {
        seq![decimal_digit(n)]
    } else {
        decimal(n / 10).push(decimal_digit(n % 10))
    }
}

/// The decimal rendering of a signed number, with a leading `-` when negative.
pub open spec fn signed_decimal(n: int) -> Seq<char> {
    if n < 0 {
        seq!['-'] + decimal((-n) as nat)
    } else {
        decimal(n as nat)
    }
}

/// The bytes of a text made of ASCII characters, one byte per character.
pub open spec fn ascii_bytes(s: Seq<char>) -> Seq<u8> {
    s.map_values(|c: char| c as u8)
}

/// A rendering of `width` hex digits has `width` characters, each a digit
/// `0`-`9` or a lowercase letter `a`-`f`.
pub proof fn lemma_hex_width_digits(n: nat, width: nat)
    ensures
        hex_width(n, width).len() == width,
        forall|i: int|
            0 <= i < width ==> {
                let c = #[trigger] hex_width(n, width)[i];
                (48 <= c as int <= 57) || (97 <= c as int <= 102)
            },
    decreases width,
{
    if width > 0 {
        lemma_hex_width_digits(n / 16, (width - 1) as nat);
    }
}

/// True when `arg` holds exactly the characters of `word`.
pub(crate) fn is_word(arg: &String, word: &str) -> (r: bool)
    ensures
        r == (arg@ == word@),
{
    let w = String::from_str(word);
    arg.eq(&w)
}

/// Appends one character (`String::push`).
#[verifier::external_body]
pub(crate) fn push_char(s: &mut String, c: char)
    ensures
        final(s)@ == old(s)@.push(c),
{
    s.push(c);
}

/// The character of a hexadecimal digit.
pub(crate) fn hex_digit_char(d: u64) -> (c: char)
    requires
        d < 16,
    ensures
        c == hex_digit(d as nat),
{
    let b = d as u8;
    if b < 10 {
        (b + 48) as char
    } else {
        (b + 87) as char
    }
}

/// The character of a decimal digit.
pub(crate) fn decimal_digit_char(d: u128) -> (c: char)
    requires
        d < 10,
    ensures
        c == decimal_digit(d as nat),
{
    let b = d as u8;
    (b + 48) as char
}

/// Appends the last `width` hexadecimal digits of `n`.
pub(crate) fn push_hex(s: &mut String, n: u64, width: u32)
    ensures
        final(s)@ == old(s)@ + hex_width(n as nat, width as nat),
    decreases width,
{
    if width > 0 {
        push_hex(s, n / 16, width - 1);
        let c = hex_digit_char(n % 16);
        push_char(s, c);
        proof {
            assert(hex_width(n as nat, width as nat) == hex_width((n / 16) as nat, (width - 1) as nat).push(hex_digit((n % 16) as nat)));
        }
    } else {
        proof {
            assert(old(s)@ + hex_width(n as nat, 0) =~= old(s)@);
        }
    }
}

/// Appends the decimal rendering of `n`.
pub(crate) fn push_decimal(s: &mut String, n: u128)
    ensures
        final(s)@ == old(s)@ + decimal(n as nat),
    decreases n,
{
    if n >= 10 {
        push_decimal(s, n / 10);
    }
    let c = decimal_digit_char(n % 10);
    push_char(s, c);
    proof {
        if n >= 10 {
            assert(decimal(n as nat) == decimal((n / 10) as nat).push(decimal_digit((n % 10) as nat)));
        } else {
            assert(decimal(n as nat) == seq![decimal_digit(n as nat)]);
        }
        assert(final(s)@ =~= old(s)@ + decimal(n as nat));
    }
}

/// Appends the ASCII bytes of the decimal rendering of `n`.
pub(crate) fn push_decimal_bytes(v: &mut Vec<u8>, n: u128)
    ensures
        final(v)@ == old(v)@ + ascii_bytes(decimal(n as nat)),
    decreases n,
{
    if n >= 10 {
        push_decimal_bytes(v, n / 10);
    }
    let b = (n % 10) as u8 + 48;
    v.push(b);
    proof {
        let d = decimal(n as nat);
        if n >= 10 {
            assert(d == decimal((n / 10) as nat).push(decimal_digit((n % 10) as nat)));
            assert(ascii_bytes(d) =~= ascii_bytes(decimal((n / 10) as nat)).push(b));
        } else {
            assert(d == seq![decimal_digit(n as nat)]);
            assert(ascii_bytes(d) =~= seq![b]);
        }
        assert(final(v)@ =~= old(v)@ + ascii_bytes(d));
    }
}

} // verus!

verus! {

/// The value of a run of decimal digits, most significant first.
pub open spec fn decimal_value(s: Seq<char>) -> int
    decreases s.len(),
{
    if s.len() == 0 {
        0
    } else {
        decimal_value(s.drop_last()) * 10 + (s.last() as int - 48)
    }
}

/// The decimal rendering of a number is a non-empty run of the digits `0`
/// to `9`, without a leading zero unless the number is zero, and read back
/// it gives the number.
pub proof fn law_decimal_spells_the_number(n: nat)
    ensures
        decimal(n).len() > 0,
        forall|i: int| 0 <= i < decimal(n).len() ==> 48 <= #[trigger] decimal(n)[i] as int <= 57,
        decimal(n)[0] == '0' ==> n == 0,
        decimal_value(decimal(n)) == n,
    decreases n,
{
    let d = decimal(n);
    if n >= 10 {
        law_decimal_spells_the_number(n / 10);
        let p = decimal(n / 10);
        assert(d == p.push(decimal_digit(n % 10)));
        assert(d.drop_last() =~= p);
        assert(d.last() as int == (n % 10) + 48);
        assert(decimal_value(d) == decimal_value(p) * 10 + (n % 10));
        assert(d[0] == p[0]);
        assert forall|i: int| 0 <= i < d.len() implies 48 <= #[trigger] d[i] as int <= 57 by {
            if i < p.len() {
                assert(d[i] == p[i]);
            }
        }
    } else {
        assert(d == seq![decimal_digit(n)]);
        assert(d.drop_last() =~= Seq::<char>::empty());
        assert(d.last() as int == n + 48);
        assert(decimal_value(d) == decimal_value(Seq::<char>::empty()) * 10 + n);
    }
}

} // verus!
