//! Guids: twelve-character identifiers over the base64url alphabet.
//!
//! A fresh guid is minted from nine random bytes, encoded as twelve
//! characters. The encoding is verified; only the draw of the random bytes
//! is trusted.

use vstd::prelude::*;

verus! {

/// True of the characters of the base64url alphabet.
pub open spec fn base64url_char(c: char) -> bool {
    ('A' <= c && c <= 'Z') || ('a' <= c && c <= 'z') || ('0' <= c && c <= '9') || c == '-'
        || c == '_'
}

/// A valid guid: exactly twelve characters, all from the base64url alphabet.
pub open spec fn valid_guid(s: Seq<char>) -> bool {
    s.len() == 12 && (forall|i: int| 0 <= i < s.len() ==> base64url_char(#[trigger] s[i]))
}

/// Executable counterpart of [`base64url_char`].
pub fn is_base64url_char(c: char) -> (r: bool)
    ensures
        r == base64url_char(c),
{
    ('A' <= c && c <= 'Z') || ('a' <= c && c <= 'z') || ('0' <= c && c <= '9') || c == '-'
        || c == '_'
}

/// Executable counterpart of [`valid_guid`].
pub fn is_valid_guid(s: &str) -> (r: bool)
    ensures
        r == valid_guid(s@),
{
    let len = s.unicode_len();
    if len != 12 {
        return false;
    }
    let mut i: usize = 0;
    while i < 12
        invariant
            s@.len() == 12,
            0 <= i <= 12,
            forall|j: int| 0 <= j < i ==> base64url_char(#[trigger] s@[j]),
        decreases 12 - i,
    {
        if !is_base64url_char(s.get_char(i)) {
            return false;
        }
        i += 1;
    }
    true
}

/// The base64url character that encodes a six-bit value.
pub open spec fn sextet_char(v: int) -> char
    recommends
        0 <= v < 64,
{
    if v < 26 {
        ((v + 65) as u8) as char
    } else if v < 52 {
        ((v + 71) as u8) as char
    } else if v < 62 {
        ((v - 4) as u8) as char
    } else if v == 62 {
        '-'
    } else {
        '_'
    }
}

/// Executable counterpart of [`sextet_char`].
fn sextet_char_exec(v: u8) -> (c: char)
    requires
        v < 64,
    ensures
        c == sextet_char(v as int),
        base64url_char(c),
{
    if v < 26 {
        (v + 65) as char
    } else if v < 52 {
        (v + 71) as char
    } else if v < 62 {
        (v - 4) as char
    } else if v == 62 {
        '-'
    } else {
        '_'
    }
}

/// The four base64url characters that encode three bytes.
pub open spec fn encode3(b0: u8, b1: u8, b2: u8) -> Seq<char> {
    seq![
        sextet_char(b0 as int / 4),
        sextet_char((b0 as int % 4) * 16 + b1 as int / 16),
        sextet_char((b1 as int % 16) * 4 + b2 as int / 64),
        sextet_char(b2 as int % 64),
    ]
}

/// The twelve characters that encode nine bytes as a guid.
pub open spec fn guid_chars(b: Seq<u8>) -> Seq<char>
    recommends
        b.len() == 9,
{
    encode3(b[0], b[1], b[2]) + encode3(b[3], b[4], b[5]) + encode3(b[6], b[7], b[8])
}

/// Relies on `String::push`: appends the given character to the end of the
/// string.
#[verifier::external_body]
fn push_char(s: &mut String, c: char)
    ensures
        final (s)@ == old(s)@.push(c),
{
    s.push(c)
}

/// Append the four characters that encode three bytes.
fn encode3_onto(s: &mut String, b0: u8, b1: u8, b2: u8)
    ensures
        final (s)@ == old(s)@ + encode3(b0, b1, b2),
{
    let s0 = b0 / 4;
    let s1 = (b0 % 4) * 16 + b1 / 16;
    let s2 = (b1 % 16) * 4 + b2 / 64;
    let s3 = b2 % 64;
    push_char(s, sextet_char_exec(s0));
    push_char(s, sextet_char_exec(s1));
    push_char(s, sextet_char_exec(s2));
    push_char(s, sextet_char_exec(s3));
    proof {
        assert(s@ =~= old(s)@ + encode3(b0, b1, b2));
    }
}

/// Encode nine bytes as a twelve-character guid.
pub fn encode_guid(b: &[u8; 9]) -> (s: String)
    ensures
        s@ == guid_chars(b@),
        valid_guid(s@),
{
    let mut s = String::new();
    encode3_onto(&mut s, b[0], b[1], b[2]);
    encode3_onto(&mut s, b[3], b[4], b[5]);
    encode3_onto(&mut s, b[6], b[7], b[8]);
    proof {
        assert(s@ =~= guid_chars(b@));
    }
    s
}

/// Relies on `rand::random`: draws nine bytes from the thread-local random
/// generator. Nothing is assumed about the values drawn.
#[verifier::external_body]
fn random_bytes() -> (b: [u8; 9]) {
    rand::random::<[u8; 9]>()
}

/// Mint a fresh random guid: nine random bytes, base64url-encoded.
pub fn random_guid() -> (s: String)
    ensures
        valid_guid(s@),
{
    let b = random_bytes();
    encode_guid(&b)
}

} // verus!
