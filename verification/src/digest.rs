//! SHA-256 checksums of file contents, written in lowercase hexadecimal.

use vstd::prelude::*;
use crate::text::{string_of};
use sha2::{Digest, Sha256};

verus! {

/// A running `sha2::Sha256` computation. Its hasher type is an alias of a
/// deeply generic type, so it is held opaquely here.
#[verifier::external_body]
pub struct Sha256State {
    inner: Sha256,
}

/// The bytes fed so far into a running SHA-256 computation.
pub uninterp spec fn sha256_absorbed(s: Sha256State) -> Seq<u8>;

/// The SHA-256 digest of `data`.
pub uninterp spec fn sha256_of(data: Seq<u8>) -> Seq<u8>;

/// `Sha256::new`: a computation that has been fed nothing.
#[verifier::external_body]
fn sha256_start() -> (s: Sha256State)
    ensures
        sha256_absorbed(s) == Seq::<u8>::empty(),
{
    Sha256State { inner: Sha256::new() }
}

/// `Digest::update`: feeds `data` after what was fed before.
#[verifier::external_body]
fn sha256_feed(s: &mut Sha256State, data: &[u8])
    ensures
        sha256_absorbed(*final(s)) == sha256_absorbed(*old(s)) + data@,
{
    s.inner.update(data);
}

/// `Digest::finalize`: the 32-byte digest of everything fed.
#[verifier::external_body]
fn sha256_finish(s: Sha256State) -> (d: Vec<u8>)
    ensures
        d@ == sha256_of(sha256_absorbed(s)),
        d@.len() == 32,
{
    s.inner.finalize().to_vec()
}

/// The lowercase hexadecimal digit for `n` (0 to 15).
pub open spec fn hex_digit(n: int) -> char {
    if n < 10 {
        (n + 48) as char
    } else {
        (n - 10 + 97) as char
    }
}

/// `bytes` written as lowercase hexadecimal, two digits per byte, high
/// nibble first (what `format!("{:x}", ..)` prints for a digest).
pub open spec fn hex_lower(bytes: Seq<u8>) -> Seq<char>
    decreases bytes.len(),
{
    if bytes.len() == 0 {
        Seq::<char>::empty()
    } else {
        hex_lower(bytes.drop_last()) + seq![
            hex_digit(bytes.last() as int / 16),
            hex_digit(bytes.last() as int % 16),
        ]
    }
}

/// The lowercase hexadecimal digit for `n`.
fn hex_char(n: u8) -> (c: char)
    requires
        n < 16,
    ensures
        c == hex_digit(n as int),
{
    if n < 10 {
        (n + 48) as char
    } else {
        (n - 10 + 97) as char
    }
}

/// `bytes` in lowercase hexadecimal.
pub fn to_hex_lower(bytes: &Vec<u8>) -> (s: String)
    ensures
        s@ == hex_lower(bytes@),
        s@.len() == 2 * bytes@.len(),
{
    let mut out: Vec<char> = Vec::new();
    let mut i: usize = 0;
    assert(bytes@.take(0) =~= Seq::<u8>::empty());
    while i < bytes.len()
        invariant
            i <= bytes.len(),
            out@ == hex_lower(bytes@.take(i as int)),
            out@.len() == 2 * i,
        decreases bytes.len() - i,
    {
        let b = bytes[i];
        assert(bytes@.take(i + 1).drop_last() =~= bytes@.take(i as int));
        out.push(hex_char(b / 16));
        out.push(hex_char(b % 16));
        assert(out@ =~= hex_lower(bytes@.take(i + 1)));
        i += 1;
    }
    assert(bytes@.take(bytes.len() as int) =~= bytes@);
    string_of(&out)
}

/// The SHA-256 checksum of content fed in pieces.
pub struct ContentChecksum {
    state: Sha256State,
}

impl ContentChecksum {
    /// The content fed so far.
    pub closed spec fn content(&self) -> Seq<u8> {
        sha256_absorbed(self.state)
    }

    /// A checksum of nothing yet.
    pub fn new() -> (c: ContentChecksum)
        ensures
            c.content() == Seq::<u8>::empty(),
    {
        ContentChecksum { state: sha256_start() }
    }

    /// Feeds the next piece of content.
    pub fn update(&mut self, data: &[u8])
        ensures
            final(self).content() == old(self).content() + data@,
    {
        sha256_feed(&mut self.state, data);
    }

    /// The SHA-256 digest of all the content fed, in lowercase hexadecimal
    /// (64 characters).
    pub fn finish_hex(self) -> (s: String)
        ensures
            s@ == hex_lower(sha256_of(self.content())),
            s@.len() == 64,
    {
        let d = sha256_finish(self.state);
        to_hex_lower(&d)
    }
}

} // verus!
