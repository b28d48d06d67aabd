//! Certificate fingerprints: the SHA-256 digest of the DER bytes as
//! colon-separated hex, and the trust-on-first-use comparison.

use vstd::prelude::*;
use sha2::{Digest, Sha256};
use crate::text::push_char;

verus! {

/// The SHA-256 digest of `data`.
pub uninterp spec fn sha256_of(data: Seq<u8>) -> Seq<u8>;

/// Whether `c` is alphabetic or numeric in Unicode's sense.
pub uninterp spec fn char_is_alphanumeric(c: char) -> bool;

/// Relies on `sha2::Sha256::digest`: the 32-byte SHA-256 digest of the input.
#[verifier::external_body]
fn sha256_digest(data: &[u8]) -> (d: Vec<u8>)
    ensures
        d@ == sha256_of(data@),
        d@.len() == 32,
{
    Sha256::digest(data).to_vec()
}

/// ASCII letter or digit.
pub open spec fn ascii_alnum(c: char) -> bool {
    ('0' <= c && c <= '9') || ('a' <= c && c <= 'z') || ('A' <= c && c <= 'Z')
}

/// Relies on `char::is_alphanumeric`; on ASCII it holds exactly of letters
/// and digits.
#[verifier::external_body]
fn is_alphanumeric(c: char) -> (r: bool)
    ensures
        r == char_is_alphanumeric(c),
        (c as u32) < 128 ==> (r <==> ascii_alnum(c)),
{
    c.is_alphanumeric()
}

/// ASCII lower-case letters raised; every other character kept.
pub open spec fn ascii_upper(c: char) -> char {
    if 'a' <= c && c <= 'z' {
        ((c as u32) - 32) as char
    } else {
        c
    }
}

fn ascii_upper_exec(c: char) -> (u: char)
    ensures
        u == ascii_upper(c),
{
    if 'a' <= c && c <= 'z' {
        ((c as u8) - 32) as char
    } else {
        c
    }
}

/// Upper-case hex digit of a value below sixteen.
pub open spec fn upper_hex_digit(n: int) -> char {
    if n < 10 {
        ((n + 48) as u8) as char
    } else {
        ((n + 55) as u8) as char
    }
}

/// Lower-case hex digit of a value below sixteen.
pub open spec fn lower_hex_digit(n: int) -> char {
    if n < 10 {
        ((n + 48) as u8) as char
    } else {
        ((n + 87) as u8) as char
    }
}

pub open spec fn hex_pair(b: u8, upper: bool) -> Seq<char> {
    if upper {
        seq![upper_hex_digit(b as int / 16), upper_hex_digit(b as int % 16)]
    } else {
        seq![lower_hex_digit(b as int / 16), lower_hex_digit(b as int % 16)]
    }
}

/// Two hex digits per byte, pairs separated by colons.
pub open spec fn colon_hex(b: Seq<u8>, upper: bool) -> Seq<char>
    decreases b.len(),
{
    if b.len() == 0 {
        seq![]
    } else if b.len() == 1 {
        hex_pair(b[0], upper)
    } else {
        colon_hex(b.drop_last(), upper) + seq![':'] + hex_pair(b.last(), upper)
    }
}

/// Characters kept by `normalize_fingerprint`, upper-cased.
pub open spec fn normalized(s: Seq<char>) -> Seq<char>
    decreases s.len(),
{
    if s.len() == 0 {
        seq![]
    } else if char_is_alphanumeric(s.last()) {
        normalized(s.drop_last()).push(ascii_upper(s.last()))
    } else {
        normalized(s.drop_last())
    }
}

fn hex_digit_of(n: u8, upper: bool) -> (c: char)
    requires
        n < 16,
    ensures
        upper ==> c == upper_hex_digit(n as int),
        !upper ==> c == lower_hex_digit(n as int),
{
    if n < 10 {
        (n + 48) as char
    } else if upper {
        (n + 55) as char
    } else {
        (n + 87) as char
    }
}

/// Bytes as colon-separated hex pairs, e.g. `AA:0F`.
pub fn format_fingerprint(digest: &[u8], upper: bool) -> (s: String)
    ensures
        s@ == colon_hex(digest@, upper),
{
    let mut s = String::new();
    let mut i: usize = 0;
    while i < digest.len()
        invariant
            i <= digest@.len(),
            s@ == colon_hex(digest@.subrange(0, i as int), upper),
        decreases digest@.len() - i,
    {
        let b = digest[i];
        if i > 0 {
            push_char(&mut s, ':');
        }
        push_char(&mut s, hex_digit_of(b / 16, upper));
        push_char(&mut s, hex_digit_of(b % 16, upper));
        proof {
            let pre = digest@.subrange(0, i as int);
            let post = digest@.subrange(0, i + 1);
            assert(post.drop_last() =~= pre);
            assert(post.last() == b);
            if i == 0 {
                assert(pre.len() == 0);
                assert(s@ =~= hex_pair(b, upper));
            } else {
                assert(s@ =~= colon_hex(pre, upper) + seq![':'] + hex_pair(b, upper));
            }
        }
        i += 1;
    }
    assert(digest@.subrange(0, digest@.len() as int) =~= digest@);
    s
}

/// Fingerprint of a DER-encoded certificate: SHA-256, lower-case hex pairs
/// joined by colons.
pub fn fingerprint_from_cert_der(der: &[u8]) -> (s: String)
    ensures
        s@ == colon_hex(sha256_of(der@), false),
{
    let d = sha256_digest(der);
    format_fingerprint(d.as_slice(), false)
}

/// Trust-on-first-use check of a server certificate against a pinned
/// fingerprint.
#[derive(Debug)]
pub struct TofuVerifier {
    expected_fingerprint: String,
}

impl TofuVerifier {
    pub closed spec fn expected(&self) -> Seq<char> {
        self.expected_fingerprint@
    }

    pub fn new(fingerprint: String) -> (v: TofuVerifier)
        ensures
            v.expected() == fingerprint@,
    {
        TofuVerifier { expected_fingerprint: fingerprint }
    }

    /// Keeps alphanumeric characters, ASCII letters upper-cased, so that
    /// `aa:bb-cc` and `AABBCC` compare equal.
    pub fn normalize_fingerprint(fp: &str) -> (s: String)
        ensures
            s@ == normalized(fp@),
    {
        let n = fp.unicode_len();
        let mut s = String::new();
        let mut i: usize = 0;
        while i < n
            invariant
                i <= n,
                n == fp@.len(),
                s@ == normalized(fp@.subrange(0, i as int)),
            decreases n - i,
        {
            let c = fp.get_char(i);
            if is_alphanumeric(c) {
                push_char(&mut s, ascii_upper_exec(c));
            }
            proof {
                let post = fp@.subrange(0, i + 1);
                assert(post.drop_last() =~= fp@.subrange(0, i as int));
                assert(post.last() == c);
            }
            i += 1;
        }
        assert(fp@.subrange(0, n as int) =~= fp@);
        s
    }

    /// Fingerprint of a DER-encoded certificate, upper-case hex pairs
    /// joined by colons.
    pub fn calculate_fingerprint(&self, der: &[u8]) -> (s: String)
        ensures
            s@ == colon_hex(sha256_of(der@), true),
    {
        let d = sha256_digest(der);
        format_fingerprint(d.as_slice(), true)
    }

    /// Whether the certificate's fingerprint equals the pinned one after
    /// normalising both.
    pub fn matches_certificate(&self, der: &[u8]) -> (r: bool)
        ensures
            r == (normalized(colon_hex(sha256_of(der@), true)) == normalized(self.expected())),
    {
        let actual = self.calculate_fingerprint(der);
        let a = TofuVerifier::normalize_fingerprint(actual.as_str());
        let e = TofuVerifier::normalize_fingerprint(self.expected_fingerprint.as_str());
        a == e
    }
}

} // verus!
