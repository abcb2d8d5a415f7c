//! The MD5 of a downloaded archive, taken chunk by chunk so that an archive
//! is never held in memory.

use md5::Digest;
use vstd::prelude::*;

use crate::text::{lower_text, same_ignoring_case};

verus! {

/// An MD5 computation under way: the `Md5` of the `md-5` crate.
#[verifier::external_body]
pub struct Hasher {
    md5: md5::Md5,
}

/// The bytes that an MD5 hasher has taken so far.
pub uninterp spec fn hashed_bytes(hasher: Hasher) -> Seq<u8>;

/// The MD5 of a sequence of bytes.
pub uninterp spec fn md5_digest(bytes: Seq<u8>) -> Seq<u8>;

/// `Digest::new` for `Md5`: a hasher that has taken no bytes.
#[verifier::external_body]
fn md5_new() -> (hasher: Hasher)
    ensures
        hashed_bytes(hasher) == Seq::<u8>::empty(),
{
    Hasher { md5: md5::Md5::new() }
}

/// `Digest::update` for `Md5`: takes `data` after the bytes taken before.
#[verifier::external_body]
fn md5_update(hasher: &mut Hasher, data: &[u8])
    ensures
        hashed_bytes(*final(hasher)) == hashed_bytes(*old(hasher)) + data@,
{
    hasher.md5.update(data)
}

/// `Digest::finalize` for `Md5`: the sixteen bytes of the MD5 of all that the
/// hasher has taken.
#[verifier::external_body]
fn md5_finalize(hasher: Hasher) -> (digest: Vec<u8>)
    ensures
        digest@ == md5_digest(hashed_bytes(hasher)),
        digest@.len() == 16,
{
    hasher.md5.finalize().to_vec()
}

/// A number below sixteen as a lower-case hexadecimal digit.
pub open spec fn hex_digit(n: int) -> char {
    if n < 10 {
        (48 + n) as char
    } else {
        (87 + n) as char
    }
}

/// Bytes in lower-case hexadecimal, two digits for each.
pub open spec fn hex(bytes: Seq<u8>) -> Seq<char> {
    Seq::new(
        2 * bytes.len(),
        |i: int|
            if i % 2 == 0 {
                hex_digit(bytes[i / 2] as int / 16)
            } else {
                hex_digit(bytes[i / 2] as int % 16)
            },
    )
}

/// A number below sixteen as a lower-case hexadecimal digit.
fn hex_char(n: u8) -> (c: char)
    requires
        n < 16,
    ensures
        c == hex_digit(n as int),
{
    if n < 10 {
        (48 + n) as char
    } else {
        (87 + n) as char
    }
}

/// `bytes` in lower-case hexadecimal.
pub fn hex_of(bytes: &Vec<u8>) -> (text: String)
    ensures
        text@ == hex(bytes@),
{
    let mut text: String = String::new();
    for i in 0..bytes.len()
        invariant
            text@ == hex(bytes@.take(i as int)),
    {
        let ghost before = bytes@.take(i as int);
        let ghost after = bytes@.take(i + 1);
        let byte: u8 = bytes[i];
        text.push(hex_char(byte / 16));
        text.push(hex_char(byte % 16));
        assert(text@ =~= hex(after)) by {
            assert forall|k: int| 0 <= k < 2 * after.len() implies text@[k] == hex(after)[k] by {
                if k < 2 * i {
                    assert(hex(before)[k] == text@[k]);
                    assert(before[k / 2] == after[k / 2]);
                } else {
                    assert(k / 2 == i);
                    assert(after[i as int] == byte);
                }
            }
        }
    }
    assert(bytes@.take(bytes@.len() as int) =~= bytes@);
    text
}

/// Hexadecimal texts that agree up to the case of their letters stand for the
/// same bytes: comparing two checksums as texts loses nothing.
pub proof fn law_hex_identifies_bytes(a: Seq<u8>, b: Seq<u8>)
    requires
        same_ignoring_case(hex(a), hex(b)),
    ensures
        a == b,
{
    assert(lower_text(hex(a)).len() == lower_text(hex(b)).len());
    assert forall|i: int| 0 <= i < a.len() implies a[i] == b[i] by {
        assert(lower_text(hex(a))[2 * i] == lower_text(hex(b))[2 * i]);
        assert(lower_text(hex(a))[2 * i + 1] == lower_text(hex(b))[2 * i + 1]);
        assert((2 * i) / 2 == i && (2 * i + 1) / 2 == i);
        assert(hex(a)[2 * i] == hex_digit(a[i] as int / 16));
        assert(hex(b)[2 * i] == hex_digit(b[i] as int / 16));
        assert(hex(a)[2 * i + 1] == hex_digit(a[i] as int % 16));
        assert(hex(b)[2 * i + 1] == hex_digit(b[i] as int % 16));
    }
    assert(a =~= b);
}

/// The checksum of a file being read in chunks.
pub struct Checksum {
    hasher: Hasher,
}

impl View for Checksum {
    type V = Seq<u8>;

    /// The bytes taken so far.
    closed spec fn view(&self) -> Seq<u8> {
        hashed_bytes(self.hasher)
    }
}

impl Checksum {
    /// The checksum of nothing yet.
    pub fn new() -> (checksum: Checksum)
        ensures
            checksum@ == Seq::<u8>::empty(),
    {
        Checksum { hasher: md5_new() }
    }

    /// Takes the next chunk of the file.
    pub fn update(&mut self, chunk: &[u8])
        ensures
            final(self)@ == old(self)@ + chunk@,
    {
        md5_update(&mut self.hasher, chunk);
    }

    /// The MD5 of all chunks together, in lower-case hexadecimal.
    pub fn finish(self) -> (text: String)
        ensures
            text@ == hex(md5_digest(self@)),
            text@.len() == 32,
    {
        let digest = md5_finalize(self.hasher);
        hex_of(&digest)
    }
}

/// Hexadecimal writes each byte as its two digits, the higher first.
pub proof fn law_hex_writes_two_digits_for_each_byte(bytes: Seq<u8>, i: int)
    requires
        0 <= i < bytes.len(),
    ensures
        hex(bytes).len() == 2 * bytes.len(),
        hex(bytes)[2 * i] == "0123456789abcdef"@[bytes[i] as int / 16],
        hex(bytes)[2 * i + 1] == "0123456789abcdef"@[bytes[i] as int % 16],
{
    reveal_strlit("0123456789abcdef");
    assert((2 * i) / 2 == i && (2 * i + 1) / 2 == i);
    assert((2 * i) % 2 == 0 && (2 * i + 1) % 2 == 1);
}

} // verus!
