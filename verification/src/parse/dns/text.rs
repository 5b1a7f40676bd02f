//! Text helpers shared by the decoders.

use vstd::prelude::*;
use vstd::string::{StrSliceExecFns, StringExecFns};
use vstd::utf8::{decode_utf8, valid_utf8};

verus! {

/// The texts of a sequence of strings.
pub open spec fn texts(v: Seq<String>) -> Seq<Seq<char>> {
    v.map_values(|s: String| s@)
}

/// The parts in order with `sep` between neighbours.
pub open spec fn join_texts(parts: Seq<Seq<char>>, sep: Seq<char>) -> Seq<char>
    decreases parts.len(),
{
    if parts.len() == 0 {
        Seq::empty()
    } else if parts.len() == 1 {
        parts[0]
    } else {
        join_texts(parts.drop_last(), sep) + sep + parts.last()
    }
}

/// The parts in order with a dot between neighbours.
pub open spec fn join_dots(parts: Seq<Seq<char>>) -> Seq<char> {
    join_texts(parts, seq!['.'])
}

/// Joins the parts with `sep`.
pub fn join_with(parts: &Vec<String>, sep: &str) -> (r: String)
    ensures
        r@ == join_texts(texts(parts@), sep@),
{
    let mut out = String::new();
    let mut k: usize = 0;
    while k < parts.len()
        invariant
            k <= parts.len(),
            out@ == join_texts(texts(parts@).take(k as int), sep@),
        decreases parts.len() - k,
    {
        proof {
            let next = texts(parts@).take(k + 1);
            assert(next.drop_last() =~= texts(parts@).take(k as int));
            assert(next.last() == parts@[k as int]@);
        }
        if k > 0 {
            out.append(sep);
        }
        out.append(parts[k].as_str());
        proof {
            if k == 0 {
                assert(out@ =~= parts@[0]@);
            }
        }
        k = k + 1;
    }
    assert(texts(parts@).take(parts.len() as int) =~= texts(parts@));
    out
}

/// Joins the parts with dots.
pub fn join_with_dots(parts: &Vec<String>) -> (r: String)
    ensures
        r@ == join_dots(texts(parts@)),
{
    proof {
        reveal_strlit(".");
        assert("."@ =~= seq!['.']);
    }
    join_with(parts, ".")
}

/// The text, or the empty text where there is none.
pub open spec fn text_or_empty(t: Option<Seq<char>>) -> Seq<char> {
    match t {
        Some(s) => s,
        None => Seq::empty(),
    }
}

/// The sixteen hexadecimal digits, lower case.
pub open spec fn hex_digits() -> Seq<char> {
    seq!['0', '1', '2', '3', '4', '5', '6', '7', '8', '9', 'a', 'b', 'c', 'd', 'e', 'f']
}

/// The bytes in hexadecimal: two lower-case digits for each byte, the high
/// four bits first.
pub open spec fn hex_text(bytes: Seq<u8>) -> Seq<char>
    decreases bytes.len(),
{
    if bytes.len() == 0 {
        Seq::empty()
    } else {
        hex_text(bytes.drop_last()).push(hex_digits()[bytes.last() as int / 16]).push(
            hex_digits()[bytes.last() as int % 16],
        )
    }
}

/// `n` in decimal: the most significant digit first, no leading zero; `0`
/// is the one digit `0`.
pub open spec fn decimal_text(n: nat) -> Seq<char>
    decreases n,
{
    if n < 10 {
        seq![hex_digits()[n as int]]
    } else {
        decimal_text(n / 10).push(hex_digits()[(n % 10) as int])
    }
}

/// `n` in decimal, with a minus sign where it is negative.
pub open spec fn signed_decimal_text(n: int) -> Seq<char> {
    if n < 0 {
        seq!['-'] + decimal_text((-n) as nat)
    } else {
        decimal_text(n as nat)
    }
}

/// `n` in hexadecimal, lower case: the most significant digit first, no
/// leading zero; `0` is the one digit `0`.
pub open spec fn lower_hex_text(n: nat) -> Seq<char>
    decreases n,
{
    if n < 16 {
        seq![hex_digits()[n as int]]
    } else {
        lower_hex_text(n / 16).push(hex_digits()[(n % 16) as int])
    }
}

/// `width - len` spaces, none where `len` is `width` or more.
pub open spec fn padding(len: nat, width: nat) -> Seq<char> {
    Seq::new(
        if len < width {
            (width - len) as nat
        } else {
            0
        },
        |i: int| ' ',
    )
}

/// The text with spaces after it up to `width` characters.
pub open spec fn pad_right_text(text: Seq<char>, width: nat) -> Seq<char> {
    text + padding(text.len(), width)
}

/// The text with spaces before it up to `width` characters.
pub open spec fn pad_left_text(text: Seq<char>, width: nat) -> Seq<char> {
    padding(text.len(), width) + text
}

/// The one-digit text of a digit.
fn digit_str(d: u8) -> (r: &'static str)
    requires
        d < 16,
    ensures
        r@ == seq![hex_digits()[d as int]],
{
    proof {
        reveal_strlit("0");
        reveal_strlit("1");
        reveal_strlit("2");
        reveal_strlit("3");
        reveal_strlit("4");
        reveal_strlit("5");
        reveal_strlit("6");
        reveal_strlit("7");
        reveal_strlit("8");
        reveal_strlit("9");
        reveal_strlit("a");
        reveal_strlit("b");
        reveal_strlit("c");
        reveal_strlit("d");
        reveal_strlit("e");
        reveal_strlit("f");
    }
    let r = match d {
        0 => "0",
        1 => "1",
        2 => "2",
        3 => "3",
        4 => "4",
        5 => "5",
        6 => "6",
        7 => "7",
        8 => "8",
        9 => "9",
        10 => "a",
        11 => "b",
        12 => "c",
        13 => "d",
        14 => "e",
        _ => "f",
    };
    assert(r@ =~= seq![hex_digits()[d as int]]);
    r
}

/// Writes `n` in decimal.
pub fn decimal(n: u64) -> (r: String)
    ensures
        r@ == decimal_text(n as nat),
    decreases n,
{
    if n < 10 {
        String::from_str(digit_str(n as u8))
    } else {
        let mut out = decimal(n / 10);
        let ghost head = out@;
        out.append(digit_str((n % 10) as u8));
        assert(out@ =~= head.push(hex_digits()[(n % 10) as int]));
        out
    }
}

/// Writes `n` in decimal, with a minus sign where it is negative.
pub fn signed_decimal(n: i64) -> (r: String)
    ensures
        r@ == signed_decimal_text(n as int),
{
    if n < 0 {
        let magnitude: u64 = (-(n as i128)) as u64;
        let mut out = String::from_str("-");
        proof {
            reveal_strlit("-");
            assert("-"@ =~= seq!['-']);
        }
        out.append(decimal(magnitude).as_str());
        out
    } else {
        decimal(n as u64)
    }
}

/// Writes `n` in hexadecimal, lower case.
pub fn lower_hex(n: u64) -> (r: String)
    ensures
        r@ == lower_hex_text(n as nat),
    decreases n,
{
    if n < 16 {
        String::from_str(digit_str(n as u8))
    } else {
        let mut out = lower_hex(n / 16);
        let ghost head = out@;
        out.append(digit_str((n % 16) as u8));
        assert(out@ =~= head.push(hex_digits()[(n % 16) as int]));
        out
    }
}

/// Spaces to fill a text of `len` characters up to `width`.
fn spaces(len: usize, width: usize) -> (r: String)
    ensures
        r@ == padding(len as nat, width as nat),
{
    let mut out = String::new();
    let mut k: usize = len;
    proof {
        reveal_strlit(" ");
    }
    assert(out@ =~= padding(len as nat, len as nat));
    while k < width
        invariant
            len <= k,
            k <= width || width < len,
            width < len ==> k == len,
            out@ == padding(len as nat, k as nat),
            " "@ == seq![' '],
        decreases width - k,
    {
        let ghost before = out@;
        out.append(" ");
        k = k + 1;
        assert(out@ =~= padding(len as nat, k as nat));
    }
    assert(out@ =~= padding(len as nat, width as nat));
    out
}

/// The text with spaces after it up to `width` characters.
pub fn pad_right(text: &str, width: usize) -> (r: String)
    ensures
        r@ == pad_right_text(text@, width as nat),
{
    let mut out = String::from_str(text);
    out.append(spaces(text.unicode_len(), width).as_str());
    out
}

/// The text with spaces before it up to `width` characters.
pub fn pad_left(text: &str, width: usize) -> (r: String)
    ensures
        r@ == pad_left_text(text@, width as nat),
{
    let mut out = spaces(text.unicode_len(), width);
    out.append(text);
    out
}

/// What `{:?}` writes for a text: the text in double quotes, with escapes
/// for what would not print as itself.
pub uninterp spec fn debug_text(text: Seq<char>) -> Seq<char>;

/// `format!` with `{:?}` on a string.
#[verifier::external_body]
pub(crate) fn string_debug(text: &str) -> (r: String)
    ensures
        r@ == debug_text(text@),
{
    format!("{:?}", text)
}

/// `hex::encode`: every byte becomes two lower-case hexadecimal digits, the
/// high four bits first, in the order of the bytes.
#[verifier::external_body]
pub(crate) fn hex_encode(bytes: &[u8]) -> (r: String)
    ensures
        r@ == hex_text(bytes@),
{
    hex::encode(bytes)
}

/// The text that `String::from_utf8_lossy` makes of the bytes: theirs where
/// they are UTF-8, and otherwise with U+FFFD in place of what is not.
pub uninterp spec fn utf8_lossy(bytes: Seq<u8>) -> Seq<char>;

/// The text of the bytes, whatever they hold: the text that they encode
/// where they are well-formed UTF-8, and the lossy conversion where they
/// are not.
pub open spec fn lossy_text(bytes: Seq<u8>) -> Seq<char> {
    if valid_utf8(bytes) {
        decode_utf8(bytes)
    } else {
        utf8_lossy(bytes)
    }
}

/// `String::from_utf8_lossy`, as an owned string. Well-formed UTF-8 comes
/// out as the text it encodes.
#[verifier::external_body]
pub(crate) fn string_from_utf8_lossy(bytes: &[u8]) -> (r: String)
    ensures
        r@ == utf8_lossy(bytes@),
        valid_utf8(bytes@) ==> r@ == decode_utf8(bytes@),
{
    String::from_utf8_lossy(bytes).into_owned()
}

} // verus!
