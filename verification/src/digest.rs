//! Digests and random bytes.
use sha2::Digest;
use vstd::prelude::*;

verus! {

/// The SHA-256 digest of bytes.
pub uninterp spec fn sha256_of(bytes: Seq<u8>) -> Seq<u8>;

/// `sha2::Sha256::digest`: the thirty-two bytes of the digest are a function of the bytes.
#[verifier::external_body]
pub(crate) fn sha256(bytes: &Vec<u8>) -> (digest: Vec<u8>)
    ensures
        digest@ == sha256_of(bytes@),
        digest@.len() == 32,
{
    sha2::Sha256::digest(bytes).to_vec()
}

/// `getrandom::fill`: as many random bytes as were asked for, or why there are none. Nothing is
/// claimed of their values.
#[verifier::external_body]
pub(crate) fn random_bytes(count: usize) -> (bytes: Result<Vec<u8>, String>)
    requires
        count <= 64,
    ensures
        match bytes {
            Ok(b) => b@.len() == count,
            Err(_) => true,
        },
{
    let mut bytes = vec![0_u8; count];
    match getrandom::fill(&mut bytes) {
        Ok(()) => Ok(bytes),
        Err(error) => Err(error.to_string()),
    }
}

/// The lower-case hexadecimal digit for a number under sixteen.
pub open spec fn hex_digit(n: u8) -> char {
    if n < 10 {
        (48 + n) as char
    } else {
        (87 + n) as char
    }
}

/// Bytes in hexadecimal, two digits each.
pub open spec fn hex_of(bytes: Seq<u8>) -> Seq<char>
    decreases bytes.len(),
{
    if bytes.len() == 0 {
        Seq::empty()
    } else {
        hex_of(bytes.drop_last()).push(hex_digit(bytes.last() / 16)).push(
            hex_digit(bytes.last() % 16),
        )
    }
}

fn hex_char(n: u8) -> (c: char)
    requires
        n < 16,
    ensures
        c == hex_digit(n),
{
    if n < 10 {
        (48u8 + n) as char
    } else {
        (87u8 + n) as char
    }
}

/// Renders bytes in hexadecimal.
pub fn hex(bytes: &Vec<u8>) -> (text: String)
    ensures
        text@ == hex_of(bytes@),
{
    let mut text = String::new();
    let mut i: usize = 0;
    while i < bytes.len()
        invariant
            i <= bytes@.len(),
            text@ == hex_of(bytes@.take(i as int)),
        decreases bytes@.len() - i,
    {
        proof {
            assert(bytes@.take(i + 1).drop_last() == bytes@.take(i as int));
        }
        let byte: u8 = bytes[i];
        text.push(hex_char(byte / 16));
        text.push(hex_char(byte % 16));
        i += 1;
    }
    proof {
        assert(bytes@.take(bytes@.len() as int) == bytes@);
    }
    text
}

/// The digest of bytes as it is written down.
pub open spec fn digest_of(bytes: Seq<u8>) -> Seq<char> {
    hex_of(sha256_of(bytes))
}

/// The digest of bytes, in hexadecimal.
pub fn digest(bytes: &Vec<u8>) -> (text: String)
    ensures
        text@ == digest_of(bytes@),
{
    hex(&sha256(bytes))
}

/// Hexadecimal text has two digits for each byte and nothing else, and different bytes have
/// different texts.
pub proof fn law_hex_is_faithful(a: Seq<u8>, b: Seq<u8>)
    ensures
        hex_of(a).len() == 2 * a.len(),
        hex_of(a) == hex_of(b) ==> a == b,
    decreases a.len() + b.len(),
{
    lemma_hex_len(a);
    lemma_hex_len(b);
    if hex_of(a) == hex_of(b) {
        if a.len() == 0 || b.len() == 0 {
            assert(a == b);
        } else {
            let x = hex_of(a);
            let y = hex_of(b);
            assert(hex_of(a.drop_last()) == x.drop_last().drop_last());
            assert(hex_of(b.drop_last()) == y.drop_last().drop_last());
            law_hex_is_faithful(a.drop_last(), b.drop_last());
            assert(x[x.len() - 1] == y[y.len() - 1]);
            assert(x[x.len() - 2] == y[y.len() - 2]);
            assert(a.last() == b.last());
            assert(a == a.drop_last().push(a.last()));
            assert(b == b.drop_last().push(b.last()));
        }
    }
}

proof fn lemma_hex_len(a: Seq<u8>)
    ensures
        hex_of(a).len() == 2 * a.len(),
    decreases a.len(),
{
    if a.len() > 0 {
        lemma_hex_len(a.drop_last());
    }
}

} // verus!
