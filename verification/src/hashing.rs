//! SHA-1 digests of candidate pattern strings, hex-encoded in lowercase.
//!
//! The digest itself comes from the `sha1` crate; the hex encoding is done
//! and verified here.

use sha1::{Digest, Sha1};
use vstd::prelude::*;

verus! {

/// The 20-byte SHA-1 digest of the UTF-8 encoding of `s`.
pub uninterp spec fn sha1_of(s: Seq<char>) -> Seq<u8>;

/// Relies on `sha1::Sha1::digest`: the SHA-1 digest of the input bytes,
/// always 20 bytes long and a function of the input alone.
#[verifier::external_body]
pub(crate) fn sha1_digest(s: &str) -> (r: Vec<u8>)
    ensures
        r@ == sha1_of(s@),
        r@.len() == 20,
{
    Sha1::digest(s.as_bytes()).to_vec()
}

/// The character for one hex digit value, in lowercase.
pub open spec fn spec_hex_digit(n: int) -> char {
    if n < 10 {
        ((n + 0x30) as u8) as char
    } else {
        ((n + 0x57) as u8) as char
    }
}

/// The lowercase hex encoding of `bytes`, two digits per byte.
pub open spec fn spec_hex(bytes: Seq<u8>) -> Seq<char>
    decreases bytes.len(),
{
    if bytes.len() == 0 {
        Seq::<char>::empty()
    } else {
        spec_hex(bytes.drop_last()) + seq![
            spec_hex_digit(bytes.last() as int / 16),
            spec_hex_digit(bytes.last() as int % 16),
        ]
    }
}

/// The lowercase hex form of the SHA-1 digest of `s`: the form in which the
/// blocklist publishes its entries.
pub open spec fn spec_hash_hex(s: Seq<char>) -> Seq<char> {
    spec_hex(sha1_of(s))
}

pub(crate) fn hex_digit_str(n: u8) -> (r: &'static str)
    requires
        n < 16,
    ensures
        r@ == seq![spec_hex_digit(n as int)],
{
    proof {
        reveal_strlit("0");
        reveal_strlit("1");
        reveal_strlit("2");
        reveal_strlit("3");
        reveal_strlit("4");
        reveal_strlit("5");
        reveal_strlit("6");
        reveal_strlit("7");
        reveal_strlit("8");
        reveal_strlit("9");
        reveal_strlit("a");
        reveal_strlit("b");
        reveal_strlit("c");
        reveal_strlit("d");
        reveal_strlit("e");
        reveal_strlit("f");
    }
    match n {
        0 => "0",
        1 => "1",
        2 => "2",
        3 => "3",
        4 => "4",
        5 => "5",
        6 => "6",
        7 => "7",
        8 => "8",
        9 => "9",
        10 => "a",
        11 => "b",
        12 => "c",
        13 => "d",
        14 => "e",
        _ => "f",
    }
}

/// Encodes `bytes` as lowercase hex, two digits per byte.
pub fn hex_lower(bytes: &Vec<u8>) -> (r: String)
    ensures
        r@ == spec_hex(bytes@),
{
    let mut r = String::new();
    let mut i: usize = 0;
    proof {
        assert(bytes@.take(0) =~= Seq::<u8>::empty());
        assert(r@ =~= spec_hex(bytes@.take(0)));
    }
    while i < bytes.len()
        invariant
            i <= bytes@.len(),
            r@ == spec_hex(bytes@.take(i as int)),
        decreases bytes@.len() - i,
    {
        let b = bytes[i];
        r.append(hex_digit_str(b / 16));
        r.append(hex_digit_str(b % 16));
        proof {
            assert(bytes@.take(i + 1).drop_last() =~= bytes@.take(i as int));
            assert(bytes@.take(i + 1).last() == bytes@[i as int]);
            assert(r@ =~= spec_hex(bytes@.take(i + 1)));
        }
        i += 1;
    }
    proof {
        assert(bytes@.take(bytes@.len() as int) =~= bytes@);
    }
    r
}

/// Computes the lowercase hex SHA-1 digest of a string: the hash under which
/// a blocked pattern would appear in the blocklist.
pub fn hash_hex(s: &str) -> (r: String)
    ensures
        r@ == spec_hash_hex(s@),
{
    let digest = sha1_digest(s);
    hex_lower(&digest)
}

/// The input folded to lowercase.
pub uninterp spec fn lower_of(s: Seq<char>) -> Seq<char>;

/// Relies on `str::to_lowercase`: the result depends on the characters alone.
#[verifier::external_body]
pub(crate) fn to_lowercase_str(s: &str) -> (r: String)
    ensures
        r@ == lower_of(s@),
{
    s.to_lowercase()
}

} // verus!
