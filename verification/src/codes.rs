//! Room codes: five characters from an alphabet without look-alikes.
use vstd::prelude::*;
use crate::decimal::push_char;
use crate::util::{random_bytes, RandomError};

verus! {

/// The characters of a room code, as ASCII bytes: "ABCDEFGHJKMNPQRSTUVWXYZ23456789",
/// the letters and digits without I, L, O, 0 and 1.
pub const ALPHABET: [u8; 31] = [
    65, 66, 67, 68, 69, 70, 71, 72, 74, 75, 77, 78, 80, 81, 82, 83, // A-H, J, K, M, N, P-S
    84, 85, 86, 87, 88, 89, 90, // T-Z
    50, 51, 52, 53, 54, 55, 56, 57, // 2-9
];

/// The number of characters in a room code.
pub const CODE_LEN: usize = 5;

/// The code character a byte stands for: the alphabet entry at the byte
/// modulo the alphabet's size.
pub open spec fn code_char(b: u8) -> char {
    ALPHABET@[(b % 31) as int] as char
}

/// The code characters for a byte sequence, one per byte.
pub open spec fn code_of(bytes: Seq<u8>) -> Seq<char> {
    bytes.map_values(|b: u8| code_char(b))
}

/// Turns bytes into code characters, one character per byte.
pub fn code_from_bytes(bytes: &[u8]) -> (s: String)
    ensures
        s@ == code_of(bytes@),
{
    let alphabet = ALPHABET;
    let mut s = String::new();
    let mut i: usize = 0;
    while i < bytes.len()
        invariant
            i <= bytes@.len(),
            alphabet == ALPHABET,
            s@ == bytes@.take(i as int).map_values(|b: u8| code_char(b)),
        decreases bytes@.len() - i,
    {
        let c = alphabet[(bytes[i] as usize) % 31] as char;
        push_char(&mut s, c);
        assert(bytes@.take(i + 1).map_values(|b: u8| code_char(b)) =~= bytes@.take(i as int).map_values(
            |b: u8| code_char(b),
        ).push(c));
        i += 1;
    }
    assert(bytes@.take(i as int) =~= bytes@);
    s
}

/// A fresh room code: five random bytes turned into code characters.
pub fn generate_code() -> (r: Result<String, RandomError>)
    ensures
        r matches Ok(s) ==> exists|b: Seq<u8>|
            b.len() == CODE_LEN && s@ == #[trigger] code_of(b),
{
    let bytes = random_bytes(5)?;
    Ok(code_from_bytes(bytes.as_slice()))
}

} // verus!
