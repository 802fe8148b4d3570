//! Textual forms of a discriminator: a decimal byte list, lower-case
//! hexadecimal, and standard base64.

use vstd::prelude::*;
use vstd::string::*;

verus! {

/// The standard, padded base64 text of a byte string.
pub uninterp spec fn base64_standard_of(bytes: Seq<u8>) -> Seq<char>;

/// Calls `base64::Engine::encode` on `base64::engine::general_purpose::STANDARD`.
///
/// Trusted: the returned string is the standard-alphabet, padded base64
/// encoding of the eight bytes, and depends on nothing but those bytes.
#[verifier::external_body]
fn base64_standard(bytes: &[u8; 8]) -> (out: String)
    ensures
        out@ == base64_standard_of(bytes@),
{
    base64::Engine::encode(&base64::engine::general_purpose::STANDARD, bytes)
}

/// The character that writes a digit value below sixteen.
pub open spec fn digit_of(value: int) -> char {
    seq!['0', '1', '2', '3', '4', '5', '6', '7', '8', '9', 'a', 'b', 'c', 'd', 'e', 'f'][value]
}

/// Lower-case hexadecimal: two digits per byte, high nibble first.
pub open spec fn hex_of(bytes: Seq<u8>) -> Seq<char> {
    Seq::new(
        2 * bytes.len(),
        |i: int|
            if i % 2 == 0 {
                digit_of(bytes[i / 2] as int / 16)
            } else {
                digit_of(bytes[i / 2] as int % 16)
            },
    )
}

/// Decimal digits of a number, without leading zeros.
pub open spec fn decimal_of(n: nat) -> Seq<char>
    decreases n,
{
    if n < 10 {
        seq![digit_of(n as int)]
    } else {
        decimal_of(n / 10) + seq![digit_of((n % 10) as int)]
    }
}

/// The bytes in decimal, separated by a comma and a space.
pub open spec fn decimal_list_of(bytes: Seq<u8>) -> Seq<char>
    decreases bytes.len(),
{
    if bytes.len() == 0 {
        Seq::empty()
    } else if bytes.len() == 1 {
        decimal_of(bytes[0] as nat)
    } else {
        decimal_list_of(bytes.drop_last()) + seq![',', ' '] + decimal_of(bytes.last() as nat)
    }
}

/// The bytes as a bracketed decimal list, such as `[1, 20, 255]`.
pub open spec fn decimal_array_of(bytes: Seq<u8>) -> Seq<char> {
    seq!['['] + decimal_list_of(bytes) + seq![']']
}

/// The three textual forms of one discriminator.
pub open spec fn encodings_of(hash: Seq<u8>) -> (Seq<char>, Seq<char>, Seq<char>) {
    (decimal_array_of(hash), seq!['0', 'x'] + hex_of(hash), base64_standard_of(hash))
}

/// A discriminator written out for display.
#[derive(Debug, Clone)]
pub struct Encodings {
    /// Bracketed decimal byte list.
    pub decimal: String,
    /// Lower-case hexadecimal with a leading `0x`.
    pub hex: String,
    /// Standard base64 with padding.
    pub base64: String,
}

impl View for Encodings {
    type V = (Seq<char>, Seq<char>, Seq<char>);

    open spec fn view(&self) -> Self::V {
        (self.decimal@, self.hex@, self.base64@)
    }
}

/// The one-character string for a digit value below sixteen.
fn digit_str(value: u8) -> (digit: &'static str)
    requires
        value < 16,
    ensures
        digit@ == seq![digit_of(value as int)],
{
    proof {
        reveal_strlit("0");
        reveal_strlit("1");
        reveal_strlit("2");
        reveal_strlit("3");
        reveal_strlit("4");
        reveal_strlit("5");
        reveal_strlit("6");
        reveal_strlit("7");
        reveal_strlit("8");
        reveal_strlit("9");
        reveal_strlit("a");
        reveal_strlit("b");
        reveal_strlit("c");
        reveal_strlit("d");
        reveal_strlit("e");
        reveal_strlit("f");
    }
    let digit = match value {
        0 => "0",
        1 => "1",
        2 => "2",
        3 => "3",
        4 => "4",
        5 => "5",
        6 => "6",
        7 => "7",
        8 => "8",
        9 => "9",
        10 => "a",
        11 => "b",
        12 => "c",
        13 => "d",
        14 => "e",
        _ => "f",
    };
    assert(digit@ =~= seq![digit_of(value as int)]);
    digit
}

/// Appends the two hexadecimal digits of `byte` to `out`.
fn push_hex(out: &mut String, byte: u8)
    ensures
        final(out)@ == old(out)@ + hex_of(seq![byte]),
{
    out.append(digit_str(byte / 16));
    out.append(digit_str(byte % 16));
    assert(final(out)@ =~= old(out)@ + hex_of(seq![byte]));
}

/// Appends the decimal digits of `byte` to `out`.
fn push_decimal(out: &mut String, byte: u8)
    ensures
        final(out)@ == old(out)@ + decimal_of(byte as nat),
{
    if byte >= 100 {
        out.append(digit_str(byte / 100));
    }
    if byte >= 10 {
        out.append(digit_str(byte / 10 % 10));
    }
    out.append(digit_str(byte % 10));
    proof {
        reveal_with_fuel(decimal_of, 3);
        assert(final(out)@ =~= old(out)@ + decimal_of(byte as nat));
    }
}

/// Writes eight bytes as sixteen lower-case hexadecimal digits.
pub fn bytes_to_hex(bytes: &[u8; 8]) -> (hex: String)
    ensures
        hex@ == hex_of(bytes@),
{
    let mut hex = String::new();
    let mut i: usize = 0;
    while i < 8
        invariant
            i <= 8,
            hex@ == hex_of(bytes@.take(i as int)),
        decreases 8 - i,
    {
        push_hex(&mut hex, bytes[i]);
        i += 1;
        assert(hex@ =~= hex_of(bytes@.take(i as int)));
    }
    assert(bytes@.take(8) =~= bytes@);
    hex
}

/// Writes eight bytes as a bracketed list of decimal numbers.
pub fn bytes_to_decimal_array(bytes: &[u8; 8]) -> (text: String)
    ensures
        text@ == decimal_array_of(bytes@),
{
    let mut text = String::from_str("[");
    push_decimal(&mut text, bytes[0]);
    proof {
        reveal_strlit("[");
        assert(bytes@.take(1) =~= seq![bytes@[0]]);
        assert(text@ =~= seq!['['] + decimal_list_of(bytes@.take(1)));
    }
    let mut i: usize = 1;
    while i < 8
        invariant
            1 <= i <= 8,
            text@ == seq!['['] + decimal_list_of(bytes@.take(i as int)),
        decreases 8 - i,
    {
        text.append(", ");
        push_decimal(&mut text, bytes[i]);
        proof {
            reveal_strlit(", ");
            let next = bytes@.take(i + 1);
            assert(next.drop_last() =~= bytes@.take(i as int));
            assert(next.last() == bytes@[i as int]);
            assert(text@ =~= seq!['['] + decimal_list_of(next));
        }
        i += 1;
    }
    text.append("]");
    proof {
        reveal_strlit("]");
        assert(bytes@.take(8) =~= bytes@);
        assert(text@ =~= decimal_array_of(bytes@));
    }
    text
}

/// Writes a discriminator in all three textual forms.
pub fn encode_discriminator(hash: &[u8; 8]) -> (out: Encodings)
    ensures
        out@ == encodings_of(hash@),
{
    let decimal = bytes_to_decimal_array(hash);
    let mut hex = String::from_str("0x");
    let digits = bytes_to_hex(hash);
    hex.append(digits.as_str());
    let base64 = base64_standard(hash);
    proof {
        reveal_strlit("0x");
        assert(hex@ =~= seq!['0', 'x'] + hex_of(hash@));
    }
    Encodings { decimal, hex, base64 }
}

} // verus!
