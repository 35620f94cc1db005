//! ASCII text built byte by byte: decimal numbers, the escapes of
//! `core::ascii::escape_default`, and conversion to `String`.
use vstd::prelude::*;
use vstd::utf8::*;

verus! {

/// The characters of a sequence of ASCII bytes, one per byte.
pub open spec fn ascii_chars(bytes: Seq<u8>) -> Seq<char> {
    bytes.map_values(|b: u8| b as char)
}

/// Every byte is below `0x80`.
pub open spec fn all_ascii(bytes: Seq<u8>) -> bool {
    forall|i: int| 0 <= i < bytes.len() ==> #[trigger] bytes[i] < 0x80
}

/// The decimal digits of `n`, most significant first, without leading zeros.
pub open spec fn decimal_digits(n: nat) -> Seq<u8>
    decreases n,
{
    if n < 10 {
        seq![(48 + n) as u8]
    } else {
        decimal_digits(n / 10).push((48 + n % 10) as u8)
    }
}

/// A lower-case hexadecimal digit for `d < 16`.
pub open spec fn hex_digit(d: u8) -> u8 {
    if d < 10 {
        (48 + d) as u8
    } else {
        (87 + d) as u8
    }
}

/// What `core::ascii::escape_default` yields for a byte: tab, carriage
/// return, line feed, single quote, double quote and backslash get a
/// backslash escape, printable ASCII (`0x20..=0x7e`) stands for itself,
/// and every other byte becomes `\xNN` with lower-case hex digits.
pub open spec fn escape_default(b: u8) -> Seq<u8> {
    if b == 9 {
        seq![92u8, 116u8]
    } else if b == 13 {
        seq![92u8, 114u8]
    } else if b == 10 {
        seq![92u8, 110u8]
    } else if b == 39 {
        seq![92u8, 39u8]
    } else if b == 34 {
        seq![92u8, 34u8]
    } else if b == 92 {
        seq![92u8, 92u8]
    } else if 0x20 <= b <= 0x7e {
        seq![b]
    } else {
        seq![92u8, 120u8, hex_digit(b / 16), hex_digit(b % 16)]
    }
}

/// The escape of each byte, as `core::ascii::escape_default` documents
/// it: printable ASCII other than the quotes and the backslash stands for
/// itself; tab, line feed, carriage return, the quotes and the backslash
/// are a backslash and one letter or the byte itself; every other byte is
/// a backslash, `x` and its two lower-case hexadecimal digits.
pub proof fn lemma_escape_default_table(b: u8)
    ensures
        0x20 <= b <= 0x7e && b != 34 && b != 39 && b != 92 ==> escape_default(b) == seq![b],
        b == 9 ==> escape_default(b) == seq![92u8, 116u8],
        b == 10 ==> escape_default(b) == seq![92u8, 110u8],
        b == 13 ==> escape_default(b) == seq![92u8, 114u8],
        b == 34 ==> escape_default(b) == seq![92u8, 34u8],
        b == 39 ==> escape_default(b) == seq![92u8, 39u8],
        b == 92 ==> escape_default(b) == seq![92u8, 92u8],
        (b < 0x20 && b != 9 && b != 10 && b != 13) || b > 0x7e ==> escape_default(b) == seq![
            92u8,
            120u8,
            (if b / 16 < 10 { 48 + b / 16 } else { 97 + (b / 16 - 10) }) as u8,
            (if b % 16 < 10 { 48 + b % 16 } else { 97 + (b % 16 - 10) }) as u8,
        ],
        escape_default(b).len() >= 1,
        escape_default(b).len() == 1 <==> (0x20 <= b <= 0x7e && b != 34 && b != 39 && b != 92),
{
}

/// Decimal digits are ASCII, and there is at least one.
pub proof fn lemma_decimal_digits_ascii(n: nat)
    ensures
        all_ascii(decimal_digits(n)),
        decimal_digits(n).len() >= 1,
    decreases n,
{
    if n >= 10 {
        lemma_decimal_digits_ascii(n / 10);
    }
}

/// The decimal digits of `n` are the ASCII digits `0` to `9`, read most
/// significant first they give back `n`, and there is no leading zero
/// unless `n` is zero itself.
pub proof fn lemma_decimal_digits_value(n: nat)
    ensures
        forall|i: int| 0 <= i < decimal_digits(n).len() ==> 48 <= #[trigger] decimal_digits(n)[i] <= 57,
        decimal_digits(n).fold_left(0int, |acc: int, d: u8| acc * 10 + (d - 48)) == n,
        decimal_digits(n).len() >= 1,
        decimal_digits(n)[0] == 48 ==> n == 0,
    decreases n,
{
    if n >= 10 {
        lemma_decimal_digits_value(n / 10);
        let d = decimal_digits(n);
        let f = |acc: int, d: u8| acc * 10 + (d - 48);
        assert(d.drop_last() =~= decimal_digits(n / 10));
        assert(d[0] == decimal_digits(n / 10)[0]);
        assert(d.last() == (48 + n % 10) as u8);
        assert(d.fold_left(0int, f) == f(d.drop_last().fold_left(0int, f), d.last()));
        assert((n / 10) as int * 10 + n % 10 == n) by (nonlinear_arith);
    } else {
        let d = decimal_digits(n);
        let f = |acc: int, d: u8| acc * 10 + (d - 48);
        assert(d.drop_last() =~= Seq::<u8>::empty());
        assert(d.fold_left(0int, f) == f(d.drop_last().fold_left(0int, f), d.last()));
    }
}

/// Escaped bytes are ASCII.
pub proof fn lemma_escape_ascii(b: u8)
    ensures
        all_ascii(escape_default(b)),
{
}

/// ASCII bytes are valid UTF-8 and decode to one character per byte.
pub proof fn lemma_ascii_utf8(bytes: Seq<u8>)
    requires
        all_ascii(bytes),
    ensures
        valid_utf8(bytes),
        decode_utf8(bytes) == ascii_chars(bytes),
{
    let chars = ascii_chars(bytes);
    assert(is_ascii_chars(chars)) by {
        assert forall|i| 0 <= i < chars.len() implies '\0' <= #[trigger] chars[i] <= '\u{7f}' by {
            assert(bytes[i] < 0x80);
        }
    }
    is_ascii_chars_encode_utf8(chars);
    assert forall|i| 0 <= i < chars.len() implies #[trigger] encode_utf8(chars)[i] == bytes[i] by {
        assert(chars[i] as u8 == encode_utf8(chars)[i]);
        assert(bytes[i] < 0x80);
        assert(chars[i] == bytes[i] as char);
        assert((bytes[i] as char) as u8 == bytes[i]);
    }
    assert(encode_utf8(chars) =~= bytes);
    encode_utf8_valid_utf8(chars);
    encode_utf8_decode_utf8(chars);
}

/// `String::from_utf8` on bytes that are valid UTF-8, unwrapped. Its
/// documentation promises `Ok` exactly for valid UTF-8, holding those
/// bytes; the contract states that the string's characters are the
/// decoding of the bytes.
#[verifier::external_body]
fn string_from_utf8(bytes: Vec<u8>) -> (s: String)
    requires
        valid_utf8(bytes@),
    ensures
        s@ == decode_utf8(bytes@),
{
    String::from_utf8(bytes).unwrap()
}

/// The string of a sequence of ASCII bytes.
pub fn ascii_string(bytes: Vec<u8>) -> (s: String)
    requires
        all_ascii(bytes@),
    ensures
        s@ == ascii_chars(bytes@),
{
    proof {
        lemma_ascii_utf8(bytes@);
    }
    string_from_utf8(bytes)
}

/// Appends the decimal digits of `n`.
pub fn push_decimal(out: &mut Vec<u8>, n: u64)
    ensures
        final(out)@ == old(out)@ + decimal_digits(n as nat),
    decreases n,
{
    if n >= 10 {
        push_decimal(out, n / 10);
    }
    let digit: u8 = (n % 10) as u8;
    out.push(48u8 + digit);
    assert(final(out)@ =~= old(out)@ + decimal_digits(n as nat));
}

fn hex_digit_exec(d: u8) -> (h: u8)
    requires
        d < 16,
    ensures
        h == hex_digit(d),
{
    if d < 10 {
        48u8 + d
    } else {
        87u8 + d
    }
}

/// Appends what `core::ascii::escape_default` yields for `b`.
pub fn push_escaped(out: &mut Vec<u8>, b: u8)
    ensures
        final(out)@ == old(out)@ + escape_default(b),
{
    if b == 9 || b == 13 || b == 10 || b == 39 || b == 34 || b == 92 {
        let c: u8 = if b == 9 {
            116u8
        } else if b == 13 {
            114u8
        } else if b == 10 {
            110u8
        } else {
            b
        };
        out.push(92u8);
        out.push(c);
    } else if 0x20 <= b && b <= 0x7e {
        out.push(b);
    } else {
        out.push(92u8);
        out.push(120u8);
        out.push(hex_digit_exec(b / 16));
        out.push(hex_digit_exec(b % 16));
    }
    assert(final(out)@ =~= old(out)@ + escape_default(b));
}

} // verus!
