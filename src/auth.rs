//! Authentication tokens: 32 random bytes, written as 64 hex digits.

use vstd::prelude::*;
use crate::error::CoreError;
use crate::text::push_char;
use rand::Rng;

verus! {

/// Number of bytes in a token.
pub const TOKEN_SIZE: usize = 32;

/// A 256-bit authentication token. Its identity is the full byte array.
#[derive(Debug, Clone, Copy, PartialEq, Eq, Hash)]
pub struct AuthToken([u8; TOKEN_SIZE]);

impl View for AuthToken {
    type V = Seq<u8>;

    closed spec fn view(&self) -> Seq<u8> {
        self.0@
    }
}

/// Lower-case hex digit of a value below sixteen.
pub open spec fn hex_digit(n: int) -> char {
    if n < 10 {
        ((n + 48) as u8) as char
    } else {
        ((n + 87) as u8) as char
    }
}

/// Value of a hex digit of either case; `-1` for any other character.
pub open spec fn hex_value(c: char) -> int {
    let v = c as u32;
    if 48 <= v <= 57 {
        v - 48
    } else if 97 <= v <= 102 {
        v - 87
    } else if 65 <= v <= 70 {
        v - 55
    } else {
        -1
    }
}

/// Every character is a hex digit.
pub open spec fn is_hex_text(s: Seq<char>) -> bool {
    forall|i: int| 0 <= i < s.len() ==> hex_value(#[trigger] s[i]) >= 0
}

/// Two lower-case hex digits per byte, high nibble first.
pub open spec fn hex_encode(b: Seq<u8>) -> Seq<char> {
    Seq::new(
        2 * b.len(),
        |i: int|
            if i % 2 == 0 {
                hex_digit(b[i / 2] as int / 16)
            } else {
                hex_digit(b[i / 2] as int % 16)
            },
    )
}

/// The bytes that pairs of hex digits denote.
pub open spec fn hex_decode(s: Seq<char>) -> Seq<u8> {
    Seq::new(s.len() / 2, |i: int| (hex_value(s[2 * i]) * 16 + hex_value(s[2 * i + 1])) as u8)
}

/// Whether `s` is the text form of a token.
pub open spec fn is_token_text(s: Seq<char>) -> bool {
    s.len() == 2 * TOKEN_SIZE && is_hex_text(s)
}

proof fn lemma_digit_value(n: int)
    requires
        0 <= n < 16,
    ensures
        hex_value(hex_digit(n)) == n,
{
}

/// Decoding the hex text of bytes gives the bytes back.
pub proof fn lemma_hex_round_trip(b: Seq<u8>)
    ensures
        is_hex_text(hex_encode(b)),
        hex_encode(b).len() == 2 * b.len(),
        hex_decode(hex_encode(b)) == b,
{
    let s = hex_encode(b);
    assert forall|i: int| 0 <= i < s.len() implies hex_value(#[trigger] s[i]) >= 0 by {
        lemma_digit_value(b[i / 2] as int / 16);
        lemma_digit_value(b[i / 2] as int % 16);
    }
    assert forall|i: int| 0 <= i < b.len() implies #[trigger] hex_decode(s)[i] == b[i] by {
        lemma_digit_value(b[i] as int / 16);
        lemma_digit_value(b[i] as int % 16);
        assert((2 * i) / 2 == i);
        assert((2 * i + 1) / 2 == i);
        assert((2 * i) % 2 == 0);
        assert((2 * i + 1) % 2 == 1);
    }
    assert(hex_decode(s) =~= b);
}

fn hex_digit_exec(n: u8) -> (c: char)
    requires
        n < 16,
    ensures
        c == hex_digit(n as int),
{
    if n < 10 {
        (n + 48) as char
    } else {
        (n + 87) as char
    }
}

fn hex_value_exec(c: char) -> (r: Option<u8>)
    ensures
        r is Some <==> hex_value(c) >= 0,
        r matches Some(v) ==> v == hex_value(c),
{
    let v = c as u32;
    if 48 <= v && v <= 57 {
        Some((v - 48) as u8)
    } else if 97 <= v && v <= 102 {
        Some((v - 87) as u8)
    } else if 65 <= v && v <= 70 {
        Some((v - 55) as u8)
    } else {
        None
    }
}

/// Relies on `rand::Rng::fill` over the thread-local generator: it fills
/// the array with bytes from a cryptographically secure source.
#[verifier::external_body]
fn random_token_bytes() -> (b: [u8; TOKEN_SIZE]) {
    let mut bytes = [0u8; TOKEN_SIZE];
    rand::thread_rng().fill(&mut bytes);
    bytes
}

impl AuthToken {
    /// A fresh token drawn from a cryptographically secure generator.
    pub fn generate() -> (t: AuthToken)
        ensures
            t@.len() == TOKEN_SIZE,
    {
        let bytes = random_token_bytes();
        AuthToken(bytes)
    }

    /// The token with the given bytes.
    pub fn from_bytes(bytes: [u8; TOKEN_SIZE]) -> (t: AuthToken)
        ensures
            t@ == bytes@,
    {
        AuthToken(bytes)
    }

    /// Parses 64 hex digits (either case) into a token.
    pub fn from_hex(hex: &str) -> (r: Result<AuthToken, CoreError>)
        ensures
            r is Ok <==> is_token_text(hex@),
            r matches Ok(t) ==> t@ == hex_decode(hex@),
            r matches Err(e) ==> e == CoreError::InvalidTokenFormat,
    {
        let n = hex.unicode_len();
        if n != 2 * TOKEN_SIZE {
            return Err(CoreError::InvalidTokenFormat);
        }
        let mut bytes = [0u8; TOKEN_SIZE];
        let mut i: usize = 0;
        while i < TOKEN_SIZE
            invariant
                i <= TOKEN_SIZE,
                hex@.len() == 2 * TOKEN_SIZE,
                bytes@.len() == TOKEN_SIZE,
                forall|j: int| 0 <= j < 2 * i ==> hex_value(#[trigger] hex@[j]) >= 0,
                forall|j: int|
                    0 <= j < i ==> #[trigger] bytes@[j] == (hex_value(hex@[2 * j]) * 16
                        + hex_value(hex@[2 * j + 1])) as u8,
            decreases TOKEN_SIZE - i,
        {
            let hi = hex_value_exec(hex.get_char(2 * i));
            let lo = hex_value_exec(hex.get_char(2 * i + 1));
            match (hi, lo) {
                (Some(h), Some(l)) => {
                    bytes[i] = h * 16 + l;
                },
                _ => {
                    proof {
                        assert(!is_hex_text(hex@)) by {
                            if hi is None {
                                assert(hex_value(hex@[2 * i as int]) < 0);
                            } else {
                                assert(hex_value(hex@[2 * i + 1]) < 0);
                            }
                        }
                    }
                    return Err(CoreError::InvalidTokenFormat);
                },
            }
            i += 1;
        }
        assert(bytes@ =~= hex_decode(hex@));
        Ok(AuthToken(bytes))
    }

    /// The token as 64 lower-case hex digits.
    pub fn to_hex(&self) -> (s: String)
        ensures
            s@ == hex_encode(self@),
            s@.len() == 2 * TOKEN_SIZE,
            is_token_text(s@),
            hex_decode(s@) == self@,
    {
        proof {
            lemma_hex_round_trip(self@);
        }
        let mut s = String::new();
        let mut i: usize = 0;
        while i < TOKEN_SIZE
            invariant
                i <= TOKEN_SIZE,
                self@.len() == TOKEN_SIZE,
                s@ =~= hex_encode(self@.subrange(0, i as int)),
            decreases TOKEN_SIZE - i,
        {
            let b = self.0[i];
            push_char(&mut s, hex_digit_exec(b / 16));
            push_char(&mut s, hex_digit_exec(b % 16));
            proof {
                let pre = self@.subrange(0, i as int);
                let post = self@.subrange(0, i + 1);
                assert forall|k: int| 0 <= k < 2 * (i + 1) implies #[trigger] s@[k]
                    == hex_encode(post)[k] by {
                    if k < 2 * i {
                        assert(s@[k] == hex_encode(pre)[k]);
                        assert(post[k / 2] == pre[k / 2]);
                    }
                }
            }
            i += 1;
        }
        assert(self@.subrange(0, TOKEN_SIZE as int) =~= self@);
        s
    }

    /// The raw bytes.
    pub fn as_bytes(&self) -> (b: &[u8; TOKEN_SIZE])
        ensures
            b@ == self@,
    {
        &self.0
    }

    /// Whether two tokens hold the same bytes.
    pub fn same_as(&self, other: &AuthToken) -> (r: bool)
        ensures
            r == (self@ == other@),
    {
        let mut i: usize = 0;
        while i < TOKEN_SIZE
            invariant
                i <= TOKEN_SIZE,
                self@.len() == TOKEN_SIZE,
                other@.len() == TOKEN_SIZE,
                forall|j: int| 0 <= j < i ==> self@[j] == other@[j],
            decreases TOKEN_SIZE - i,
        {
            if self.0[i] != other.0[i] {
                return false;
            }
            i += 1;
        }
        assert(self@ =~= other@);
        true
    }
}

/// Every token holds exactly 32 bytes.
pub proof fn lemma_token_len(t: AuthToken)
    ensures
        t@.len() == TOKEN_SIZE,
{
}

/// Reading back the hex text of a token gives the same token.
pub proof fn lemma_token_hex_round_trip(t: AuthToken)
    ensures
        is_token_text(hex_encode(t@)),
        hex_decode(hex_encode(t@)) == t@,
{
    lemma_hex_round_trip(t@);
}

} // verus!
