//! Small string helpers: comparison of secrets, case folding of names.
use vstd::prelude::*;
use vstd::string::StrSliceExecFns;
use vstd::utf8::{encode_utf8, decode_utf8};

verus! {

/// Two strings are equal exactly when their UTF-8 encodings are.
pub proof fn lemma_utf8_injective(a: Seq<char>, b: Seq<char>)
    ensures
        (encode_utf8(a) == encode_utf8(b)) <==> (a == b),
{
    broadcast use vstd::utf8::encode_utf8_decode_utf8;

    if encode_utf8(a) == encode_utf8(b) {
        assert(decode_utf8(encode_utf8(a)) == decode_utf8(encode_utf8(b)));
    }
}

/// Compares two strings byte by byte without stopping at the first difference
/// (only a difference in length returns early).
pub fn constant_time_eq(a: &str, b: &str) -> (r: bool)
    ensures
        r == (a@ == b@),
{
    proof {
        lemma_utf8_injective(a@, b@);
    }
    let ab = a.as_bytes();
    let bb = b.as_bytes();
    if ab.len() != bb.len() {
        return false;
    }
    let mut acc: u8 = 0;
    let mut i: usize = 0;
    while i < ab.len()
        invariant
            i <= ab@.len(),
            ab@.len() == bb@.len(),
            acc == 0 <==> (forall|k: int| 0 <= k < i ==> ab@[k] == bb@[k]),
        decreases ab@.len() - i,
    {
        let x = ab[i];
        let y = bb[i];
        assert((acc | (x ^ y)) == 0u8 <==> (acc == 0u8 && x == y)) by (bit_vector);
        acc = acc | (x ^ y);
        i += 1;
    }
    assert(acc == 0 <==> ab@ =~= bb@);
    acc == 0
}


/// What `str::to_lowercase` makes of a string with these characters (the
/// Unicode lowercase mapping, applied character by character).
pub uninterp spec fn lowercase(s: Seq<char>) -> Seq<char>;

/// `str::to_lowercase`: its result is `lowercase` of the argument. Nothing more
/// about the mapping is stated.
#[verifier::external_body]
pub(crate) fn to_lowercase(s: &str) -> (r: String)
    ensures
        r@ == lowercase(s@),
{
    s.to_lowercase()
}

/// An ASCII character (code point below 128).
pub open spec fn is_ascii_char(c: char) -> bool {
    (c as u32) < 128
}

/// Every character of `s` is ASCII.
pub open spec fn all_ascii(s: Seq<char>) -> bool {
    forall|i: int| 0 <= i < s.len() ==> is_ascii_char(#[trigger] s[i])
}

/// The lowercase of an ASCII character: a capital letter `A`..`Z` becomes the
/// small letter 32 code points above it; every other character stays.
pub open spec fn ascii_lower_char(c: char) -> char {
    if 'A' <= c && c <= 'Z' {
        ((c as u32) + 32) as char
    } else {
        c
    }
}

/// Names and event types as they are compared: ASCII text with each capital
/// letter made small (what `str::to_lowercase` gives on ASCII text), any other
/// text by `lowercase`.
#[verifier::opaque]
pub open spec fn folded(s: Seq<char>) -> Seq<char> {
    if all_ascii(s) {
        s.map_values(|c: char| ascii_lower_char(c))
    } else {
        lowercase(s)
    }
}

/// Lowercases a name or event type as `str::to_lowercase` does: ASCII text
/// here, character by character; other text by `str::to_lowercase` itself.
pub fn fold_case(s: &str) -> (r: String)
    ensures
        r@ == folded(s@),
{
    reveal(folded);
    let n = s.unicode_len();
    let mut ascii = true;
    let mut i: usize = 0;
    while i < n
        invariant
            i <= n,
            n == s@.len(),
            ascii <==> (forall|k: int| 0 <= k < i ==> is_ascii_char(#[trigger] s@[k])),
        decreases n - i,
    {
        let c = s.get_char(i);
        if (c as u32) >= 128 {
            ascii = false;
        }
        i += 1;
    }
    if !ascii {
        return to_lowercase(s);
    }
    let mut r = String::new();
    let mut i: usize = 0;
    while i < n
        invariant
            i <= n,
            n == s@.len(),
            all_ascii(s@),
            r@ == s@.take(i as int).map_values(|c: char| ascii_lower_char(c)),
        decreases n - i,
    {
        let c = s.get_char(i);
        let l = if 'A' <= c && c <= 'Z' {
            let b = c as u32;
            ((b + 32) as u8) as char
        } else {
            c
        };
        assert(l == ascii_lower_char(c));
        crate::decimal::push_char(&mut r, l);
        assert(s@.take(i + 1).map_values(|c: char| ascii_lower_char(c)) =~= s@.take(i as int).map_values(
            |c: char| ascii_lower_char(c),
        ).push(l));
        i += 1;
    }
    assert(s@.take(i as int) =~= s@);
    r
}

/// Law: on ASCII text, case folding keeps the length, keeps every character
/// that is not a capital letter (digits, spaces, small letters, punctuation),
/// and turns each capital letter `A`..`Z` into the small letter 32 code points
/// above it.
pub proof fn lemma_fold_ascii(s: Seq<char>)
    requires
        all_ascii(s),
    ensures
        folded(s).len() == s.len(),
        forall|i: int| 0 <= i < s.len() && !('A' <= s[i] && s[i] <= 'Z') ==> #[trigger] folded(s)[i] == s[i],
        forall|i: int| 0 <= i < s.len() && 'A' <= s[i] && s[i] <= 'Z' ==> (#[trigger] folded(s)[i]) as int == (s[i] as int) + 32,
{
    reveal(folded);
    assert forall|i: int| 0 <= i < s.len() && 'A' <= s[i] && s[i] <= 'Z' implies (#[trigger] folded(s)[i]) as int == (s[i] as int) + 32 by {
        assert(folded(s)[i] == ascii_lower_char(s[i]));
    }
}

/// Law: two ASCII texts are equal after case folding exactly when they have
/// the same length and, at every position, the same character or the same
/// letter in the other case. So `double` and `double play` never match, nor
/// do two names that differ in any letter.
pub proof fn lemma_fold_ascii_eq(a: Seq<char>, b: Seq<char>)
    requires
        all_ascii(a),
        all_ascii(b),
    ensures
        folded(a) == folded(b) <==> (a.len() == b.len() && forall|i: int| 0 <= i < a.len() ==> {
            ||| #[trigger] a[i] == b[i]
            ||| ('A' <= a[i] && a[i] <= 'Z' && (a[i] as int) + 32 == b[i] as int)
            ||| ('A' <= b[i] && b[i] <= 'Z' && (b[i] as int) + 32 == a[i] as int)
        }),
{
    lemma_fold_ascii(a);
    lemma_fold_ascii(b);
    if folded(a) == folded(b) {
        assert forall|i: int| 0 <= i < a.len() implies {
            ||| #[trigger] a[i] == b[i]
            ||| ('A' <= a[i] && a[i] <= 'Z' && (a[i] as int) + 32 == b[i] as int)
            ||| ('A' <= b[i] && b[i] <= 'Z' && (b[i] as int) + 32 == a[i] as int)
        } by {
            assert(folded(a)[i] == folded(b)[i]);
        }
    }
    if a.len() == b.len() && forall|i: int| 0 <= i < a.len() ==> {
        ||| #[trigger] a[i] == b[i]
        ||| ('A' <= a[i] && a[i] <= 'Z' && (a[i] as int) + 32 == b[i] as int)
        ||| ('A' <= b[i] && b[i] <= 'Z' && (b[i] as int) + 32 == a[i] as int)
    } {
        assert forall|i: int| 0 <= i < a.len() implies folded(a)[i] == folded(b)[i] by {
            assert(a[i] == b[i] || ('A' <= a[i] && a[i] <= 'Z' && (a[i] as int) + 32 == b[i] as int)
                || ('A' <= b[i] && b[i] <= 'Z' && (b[i] as int) + 32 == a[i] as int));
            assert((folded(a)[i] as int) == (folded(b)[i] as int));
        }
        assert(folded(a) =~= folded(b));
    }
}

/// The token of an `Authorization` header: what follows a leading `Bearer `,
/// or the empty string when the header does not start with it.
pub open spec fn bearer_spec(auth: Seq<char>) -> Seq<char> {
    if auth.len() >= 7 && auth.take(7) == "Bearer "@ {
        auth.skip(7)
    } else {
        Seq::empty()
    }
}

/// Extracts the bearer token from an `Authorization` header value.
pub fn bearer_token(auth: &str) -> (t: &str)
    ensures
        t@ == bearer_spec(auth@),
{
    let prefix = "Bearer ";
    proof {
        reveal_strlit("Bearer ");
        reveal_strlit("");
    }
    let n = auth.unicode_len();
    if n < 7 {
        return "";
    }
    let mut i: usize = 0;
    while i < 7
        invariant
            i <= 7,
            n == auth@.len(),
            n >= 7,
            prefix@ == "Bearer "@,
            forall|k: int| 0 <= k < i ==> auth@[k] == prefix@[k],
        decreases 7 - i,
    {
        proof {
            reveal_strlit("Bearer ");
            reveal_strlit("");
        }
        if auth.get_char(i) != prefix.get_char(i) {
            assert(auth@.take(7)[i as int] != "Bearer "@[i as int]);
            return "";
        }
        i += 1;
    }
    assert(auth@.take(7) =~= "Bearer "@);
    auth.substring_char(7, n)
}


/// Declares `getrandom::Error` so that the random source's failure can be
/// carried out of `fill_random`.
#[verifier::external_type_specification]
#[verifier::external_body]
pub struct ExGetrandomError(getrandom::Error);

/// Why a random value could not be made.
#[derive(Debug, PartialEq, Eq, Structural)]
pub enum RandomError {
    /// The system's random source failed.
    Unavailable,
}

/// `getrandom::getrandom`: fills `dest` with random bytes or fails. Only that
/// the length stays is stated; the bytes are whatever the system gave.
#[verifier::external_body]
pub(crate) fn fill_random(dest: &mut [u8]) -> (r: Result<(), getrandom::Error>)
    ensures
        final(dest)@.len() == old(dest)@.len(),
{
    getrandom::getrandom(dest)
}

/// Fills a fresh buffer of `n` random bytes.
pub(crate) fn random_bytes(n: usize) -> (r: Result<Vec<u8>, RandomError>)
    ensures
        r matches Ok(b) ==> b@.len() == n,
{
    let mut bytes: Vec<u8> = vec![0u8; n];
    match fill_random(bytes.as_mut_slice()) {
        Ok(()) => Ok(bytes),
        Err(_) => Err(RandomError::Unavailable),
    }
}

/// The lowercase hexadecimal digit of a value below 16.
pub open spec fn hex_digit(v: u8) -> char {
    if v < 10 {
        (48 + v) as char
    } else {
        (87 + v) as char
    }
}

/// Lowercase hexadecimal: two digits per byte, high nibble first.
pub open spec fn hex_lower(bytes: Seq<u8>) -> Seq<char>
    decreases bytes.len(),
{
    if bytes.len() == 0 {
        seq![]
    } else {
        hex_lower(bytes.drop_last()).push(hex_digit(bytes.last() >> 4)).push(hex_digit(bytes.last() & 15))
    }
}

/// Writes bytes in lowercase hexadecimal, as `hex::encode` does.
pub fn hex_encode(bytes: &[u8]) -> (s: String)
    ensures
        s@ == hex_lower(bytes@),
{
    let mut s = String::new();
    let mut i: usize = 0;
    while i < bytes.len()
        invariant
            i <= bytes@.len(),
            s@ == hex_lower(bytes@.take(i as int)),
        decreases bytes@.len() - i,
    {
        let b = bytes[i];
        let hi = b >> 4u8;
        let lo = b & 15u8;
        assert(hi < 16 && lo < 16) by (bit_vector)
            requires
                hi == b >> 4u8,
                lo == b & 15u8,
        ;
        let ch = if hi < 10 { (48u8 + hi) as char } else { (87u8 + hi) as char };
        let cl = if lo < 10 { (48u8 + lo) as char } else { (87u8 + lo) as char };
        crate::decimal::push_char(&mut s, ch);
        crate::decimal::push_char(&mut s, cl);
        assert(bytes@.take(i + 1).drop_last() =~= bytes@.take(i as int));
        i += 1;
    }
    assert(bytes@.take(i as int) =~= bytes@);
    s
}

/// A fresh host token: 16 random bytes in lowercase hexadecimal.
pub fn generate_token() -> (r: Result<String, RandomError>)
    ensures
        r matches Ok(s) ==> exists|b: Seq<u8>| b.len() == 16 && s@ == #[trigger] hex_lower(b),
{
    let bytes = random_bytes(16)?;
    Ok(hex_encode(bytes.as_slice()))
}

/// A fresh player id: 8 random bytes in lowercase hexadecimal.
pub fn generate_id() -> (r: Result<String, RandomError>)
    ensures
        r matches Ok(s) ==> exists|b: Seq<u8>| b.len() == 8 && s@ == #[trigger] hex_lower(b),
{
    let bytes = random_bytes(8)?;
    Ok(hex_encode(bytes.as_slice()))
}

/// `worker::Date::now().as_millis()`: the current time in milliseconds since
/// the Unix epoch. Nothing is stated of the value.
#[verifier::external_body]
pub fn now_ms() -> u64 {
    worker::Date::now().as_millis()
}

} // verus!
