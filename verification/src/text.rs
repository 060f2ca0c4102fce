//! Text from bytes, and numbers as text.

use vstd::prelude::*;
use vstd::string::{StrSliceExecFns, StringExecFns};
use vstd::utf8::{decode_utf8, valid_utf8};

verus! {

/// The text that `String::from_utf8_lossy` makes of `bytes`.
pub uninterp spec fn lossy_utf8(bytes: Seq<u8>) -> Seq<char>;

/// The text that `String::from_utf16_lossy` makes of `units`.
pub uninterp spec fn lossy_utf16(units: Seq<u16>) -> Seq<char>;

/// The text that the standard library's `Debug` formatting, in its pretty
/// form, makes of a duration of `millis` milliseconds.
pub uninterp spec fn duration_debug(millis: u64) -> Seq<char>;

/// Whether `unit` is a UTF-16 code unit that stands for a character by itself.
pub open spec fn is_plain_unit(unit: u16) -> bool {
    unit < 0xD800 || unit > 0xDFFF
}

/// Whether each of `units` stands for a character by itself.
pub open spec fn all_plain(units: Seq<u16>) -> bool {
    forall|i: int| 0 <= i < units.len() ==> is_plain_unit(#[trigger] units[i])
}

/// The characters that have the codes `units`, one for each.
pub open spec fn plain_text(units: Seq<u16>) -> Seq<char> {
    Seq::new(units.len(), |i: int| units[i] as char)
}

/// Calls `String::from_utf8_lossy`. The standard library documents that it
/// decodes the bytes as UTF-8 and puts U+FFFD in place of each part that is no
/// valid UTF-8; so bytes that are valid UTF-8 give the text they encode.
#[verifier::external_body]
pub(crate) fn string_from_utf8_lossy(bytes: &[u8]) -> (s: String)
    ensures
        s@ == lossy_utf8(bytes@),
        valid_utf8(bytes@) ==> s@ == decode_utf8(bytes@),
{
    String::from_utf8_lossy(bytes).into_owned()
}

/// Calls `String::from_utf16_lossy`. The standard library documents that it
/// decodes the units as UTF-16 and puts U+FFFD in place of invalid data, which
/// can only be a surrogate without its partner; so units outside the surrogate
/// range give one character each, the one with that code.
#[verifier::external_body]
pub(crate) fn string_from_utf16_lossy(units: &[u16]) -> (s: String)
    ensures
        s@ == lossy_utf16(units@),
        all_plain(units@) ==> s@ == plain_text(units@),
{
    String::from_utf16_lossy(units)
}

/// Formats `Duration::from_millis(millis)` with `{:#?}`, which the standard
/// library implements for `Duration`. Nothing is claimed of the text but that
/// it depends on the duration alone.
#[verifier::external_body]
pub(crate) fn debug_duration(millis: u64) -> (text: String)
    ensures
        text@ == duration_debug(millis),
{
    format!("{:#?}", std::time::Duration::from_millis(millis))
}

/// Whether two byte strings are the same.
pub fn bytes_equal(a: &[u8], b: &[u8]) -> (same: bool)
    ensures
        same == (a@ == b@),
{
    if a.len() != b.len() {
        return false;
    }
    let mut i: usize = 0;
    while i < a.len()
        invariant
            i <= a.len(),
            a.len() == b.len(),
            forall|j: int| 0 <= j < i ==> a@[j] == b@[j],
        decreases a.len() - i,
    {
        if a[i] != b[i] {
            return false;
        }
        i += 1;
    }
    assert(a@ =~= b@);
    true
}

/// The character for the digit `d`.
pub open spec fn digit(d: int) -> char {
    if d == 0 {
        '0'
    } else if d == 1 {
        '1'
    } else if d == 2 {
        '2'
    } else if d == 3 {
        '3'
    } else if d == 4 {
        '4'
    } else if d == 5 {
        '5'
    } else if d == 6 {
        '6'
    } else if d == 7 {
        '7'
    } else if d == 8 {
        '8'
    } else {
        '9'
    }
}

/// The decimal digits of `n`, without leading zeros.
pub open spec fn decimal(n: nat) -> Seq<char>
    decreases n,
{
    if n < 10 {
        seq![digit(n as int)]
    } else {
        decimal(n / 10) + seq![digit((n % 10) as int)]
    }
}

/// The decimal digits of `n`, after a minus sign where `n` is negative.
pub open spec fn signed_decimal(n: int) -> Seq<char> {
    if n < 0 {
        seq!['-'] + decimal((-n) as nat)
    } else {
        decimal(n as nat)
    }
}

/// `count` times the character '0'.
pub open spec fn zero_digits(count: nat) -> Seq<char> {
    Seq::new(count, |i: int| '0')
}

/// The decimal digits of `n`, with zeros in front of them where they are
/// fewer than `width`.
pub open spec fn padded(n: nat, width: nat) -> Seq<char> {
    if decimal(n).len() < width {
        zero_digits((width - decimal(n).len()) as nat) + decimal(n)
    } else {
        decimal(n)
    }
}

/// The text of one digit.
fn digit_text(d: u64) -> (s: &'static str)
    requires
        d < 10,
    ensures
        s@ == seq![digit(d as int)],
{
    proof {
        reveal_strlit("0");
        reveal_strlit("1");
        reveal_strlit("2");
        reveal_strlit("3");
        reveal_strlit("4");
        reveal_strlit("5");
        reveal_strlit("6");
        reveal_strlit("7");
        reveal_strlit("8");
        reveal_strlit("9");
    }
    let s = if d == 0 {
        "0"
    } else if d == 1 {
        "1"
    } else if d == 2 {
        "2"
    } else if d == 3 {
        "3"
    } else if d == 4 {
        "4"
    } else if d == 5 {
        "5"
    } else if d == 6 {
        "6"
    } else if d == 7 {
        "7"
    } else if d == 8 {
        "8"
    } else {
        "9"
    };
    assert(s@ =~= seq![digit(d as int)]);
    s
}

/// Appends the decimal digits of `n` to `out`.
pub fn append_decimal(out: &mut String, n: u64)
    ensures
        final(out)@ == old(out)@ + decimal(n as nat),
    decreases n,
{
    if n >= 10 {
        append_decimal(out, n / 10);
    }
    out.append(digit_text(n % 10));
    assert(out@ =~= old(out)@ + decimal(n as nat));
}

/// Appends the decimal digits of `n` to `out`, after a minus sign where `n` is
/// negative.
pub fn append_signed(out: &mut String, n: i32)
    ensures
        final(out)@ == old(out)@ + signed_decimal(n as int),
{
    if n < 0 {
        proof {
            reveal_strlit("-");
        }
        out.append("-");
        append_decimal(out, (-(n as i64)) as u64);
        assert(out@ =~= old(out)@ + signed_decimal(n as int));
    } else {
        append_decimal(out, n as u64);
    }
}

/// Appends the decimal digits of `n` to `out`, with zeros in front of them
/// where they are fewer than `width`.
pub fn append_padded(out: &mut String, n: u64, width: usize)
    ensures
        final(out)@ == old(out)@ + padded(n as nat, width as nat),
{
    let mut digits = String::new();
    append_decimal(&mut digits, n);
    assert(digits@ =~= decimal(n as nat));
    let len = digits.as_str().unicode_len();
    let mut i: usize = len;
    while i < width
        invariant
            len <= i <= width || (width < len && i == len),
            out@ == old(out)@ + zero_digits((i - len) as nat),
        decreases width - i,
    {
        proof {
            reveal_strlit("0");
        }
        out.append("0");
        assert(out@ =~= old(out)@ + zero_digits((i + 1 - len) as nat));
        i += 1;
    }
    out.append(digits.as_str());
    assert(out@ =~= old(out)@ + padded(n as nat, width as nat));
}

/// The character for the hexadecimal digit `d`, in upper case.
pub open spec fn hex_digit(d: int) -> char {
    if d < 10 {
        digit(d)
    } else if d == 10 {
        'A'
    } else if d == 11 {
        'B'
    } else if d == 12 {
        'C'
    } else if d == 13 {
        'D'
    } else if d == 14 {
        'E'
    } else {
        'F'
    }
}

/// The hexadecimal digits of `n` in upper case, without leading zeros.
pub open spec fn upper_hex(n: nat) -> Seq<char>
    decreases n,
{
    if n < 16 {
        seq![hex_digit(n as int)]
    } else {
        upper_hex(n / 16) + seq![hex_digit((n % 16) as int)]
    }
}

/// The text of one hexadecimal digit.
fn hex_digit_text(d: u64) -> (s: &'static str)
    requires
        d < 16,
    ensures
        s@ == seq![hex_digit(d as int)],
{
    if d < 10 {
        digit_text(d)
    } else {
        proof {
            reveal_strlit("A");
            reveal_strlit("B");
            reveal_strlit("C");
            reveal_strlit("D");
            reveal_strlit("E");
            reveal_strlit("F");
        }
        let s = if d == 10 {
            "A"
        } else if d == 11 {
            "B"
        } else if d == 12 {
            "C"
        } else if d == 13 {
            "D"
        } else if d == 14 {
            "E"
        } else {
            "F"
        };
        assert(s@ =~= seq![hex_digit(d as int)]);
        s
    }
}

/// Appends the hexadecimal digits of `n`, in upper case, to `out`.
pub fn append_upper_hex(out: &mut String, n: u64)
    ensures
        final(out)@ == old(out)@ + upper_hex(n as nat),
    decreases n,
{
    if n >= 16 {
        append_upper_hex(out, n / 16);
    }
    out.append(hex_digit_text(n % 16));
    assert(out@ =~= old(out)@ + upper_hex(n as nat));
}

} // verus!
