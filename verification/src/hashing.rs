//! Content identity: SHA-256 digests rendered as uppercase hexadecimal.
//!
//! The digest itself comes from an outside crate and is only named here;
//! the hexadecimal rendering is specified exactly, digit by digit.
use vstd::prelude::*;

verus! {

/// The uppercase hexadecimal digit for a value below sixteen.
pub open spec fn hex_digit_upper(n: u8) -> char {
    if n == 0 {
        '0'
    } else if n == 1 {
        '1'
    } else if n == 2 {
        '2'
    } else if n == 3 {
        '3'
    } else if n == 4 {
        '4'
    } else if n == 5 {
        '5'
    } else if n == 6 {
        '6'
    } else if n == 7 {
        '7'
    } else if n == 8 {
        '8'
    } else if n == 9 {
        '9'
    } else if n == 10 {
        'A'
    } else if n == 11 {
        'B'
    } else if n == 12 {
        'C'
    } else if n == 13 {
        'D'
    } else if n == 14 {
        'E'
    } else {
        'F'
    }
}

/// Uppercase hexadecimal rendering: each byte becomes two digits, high
/// nibble first, in the order of the input.
pub open spec fn hex_upper_of(bytes: Seq<u8>) -> Seq<char>
    decreases bytes.len(),
{
    if bytes.len() == 0 {
        Seq::empty()
    } else {
        seq![hex_digit_upper(bytes[0] / 16), hex_digit_upper(bytes[0] % 16)]
            + hex_upper_of(bytes.drop_first())
    }
}

/// The SHA-256 digest of a byte sequence. It is computed by an outside
/// crate and depends on the bytes alone, so it is only named here.
pub uninterp spec fn sha256_of(data: Seq<u8>) -> Seq<u8>;

/// Relies on sha2's `Sha256`: the digest is a function of the input bytes
/// alone and is 32 bytes long.
#[verifier::external_body]
fn sha256_digest(data: &[u8]) -> (r: Vec<u8>)
    ensures
        r@ == sha256_of(data@),
        r@.len() == 32,
{
    <sha2::Sha256 as sha2::Digest>::digest(data).as_slice().to_vec()
}

/// Relies on `hex::encode_upper`: every input byte is rendered as exactly
/// two uppercase hexadecimal digits, in input order.
#[verifier::external_body]
fn hex_encode_upper(data: &[u8]) -> (r: String)
    ensures
        r@ == hex_upper_of(data@),
{
    hex::encode_upper(data)
}

/// The outside crate's streaming SHA-256 state, opaque to verification.
#[verifier::external_type_specification]
#[verifier::external_body]
pub struct ExSha256(sha2::Sha256);

/// Relies on sha2's `Digest::new`: a fresh streaming hasher.
#[verifier::external_body]
fn sha256_new() -> sha2::Sha256 {
    <sha2::Sha256 as sha2::Digest>::new()
}

/// Relies on sha2's `Digest::update`: absorbs one chunk; feeding chunks
/// in order hashes their concatenation, which `finalize` then returns.
#[verifier::external_body]
fn sha256_update(h: &mut sha2::Sha256, chunk: &[u8]) {
    <sha2::Sha256 as sha2::Digest>::update(h, chunk);
}

/// A streaming SHA-256 hasher: chunks are fed to the outside digest in
/// order, and the digest at the end is that of their concatenation, so
/// a whole file can be hashed without holding it in memory.
pub struct Sha256Stream {
    inner: sha2::Sha256,
    fed: Ghost<Seq<u8>>,
}

impl Sha256Stream {
    /// Every byte fed so far, in order.
    pub closed spec fn bytes(self) -> Seq<u8> {
        self.fed@
    }

    /// A fresh hasher over nothing.
    pub fn new() -> (r: Sha256Stream)
        ensures
            r.bytes() == Seq::<u8>::empty(),
    {
        Sha256Stream { inner: sha256_new(), fed: Ghost(Seq::empty()) }
    }

    /// Feed one chunk; the hasher now stands over everything fed so far.
    pub fn update(&mut self, chunk: &[u8])
        ensures
            final(self).bytes() == old(self).bytes() + chunk@,
    {
        sha256_update(&mut self.inner, chunk);
        self.fed = Ghost(self.fed@ + chunk@);
    }

    /// Relies on sha2's `Digest::finalize`: the digest of everything
    /// fed, 32 bytes, a function of those bytes alone.
    #[verifier::external_body]
    fn finalize_digest(self) -> (r: Vec<u8>)
        ensures
            r@ == sha256_of(self.bytes()),
            r@.len() == 32,
    {
        <sha2::Sha256 as sha2::Digest>::finalize(self.inner).as_slice().to_vec()
    }

    /// The uppercase hexadecimal digest of everything fed: the same
    /// rendering `sha256_hex` gives the concatenation in one piece.
    pub fn finish_hex(self) -> (r: String)
        ensures
            r@ == sha256_hex_of(self.bytes()),
            r@.len() == 64,
    {
        proof {
            lemma_hex_upper_len(sha256_of(self.bytes()));
        }
        let d = self.finalize_digest();
        hex_encode_upper(d.as_slice())
    }
}

/// The uppercase hexadecimal SHA-256 digest of a byte sequence.
pub open spec fn sha256_hex_of(data: Seq<u8>) -> Seq<char> {
    hex_upper_of(sha256_of(data))
}

/// Hash a byte slice and render the digest as 64 uppercase hex characters.
pub fn sha256_hex(data: &[u8]) -> (r: String)
    ensures
        r@ == sha256_hex_of(data@),
        r@.len() == 64,
{
    proof {
        lemma_hex_upper_len(sha256_of(data@));
    }
    let digest = sha256_digest(data);
    hex_encode_upper(digest.as_slice())
}

/// The rendering is twice as long as its input.
pub proof fn lemma_hex_upper_len(bytes: Seq<u8>)
    ensures
        hex_upper_of(bytes).len() == 2 * bytes.len(),
    decreases bytes.len(),
{
    if bytes.len() > 0 {
        lemma_hex_upper_len(bytes.drop_first());
    }
}

} // verus!
