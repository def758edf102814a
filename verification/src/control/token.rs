//! Per-instance bearer token: the whole trust boundary of the control
//! surface. Generated from the operating system's random source, checked
//! for length and alphabet, and compared in constant time.

use vstd::prelude::*;
use crate::control::codec::{
    base64url_unpadded, encode_base64url, fill_random, is_base64url_spec, unpadded_len,
};
use crate::text::{byte_len, owned, utf8_len, utf8_len_exceeds};

verus! {

broadcast use vstd::utf8::encode_utf8_decode_utf8;

/// Random bytes behind one token.
pub const TOKEN_RANDOM_BYTES: usize = 32;

/// Exact length of one encoded token: 32 bytes in unpadded base64url.
pub const TOKEN_CHARS: usize = 43;

/// Token generation or construction failure.
#[derive(Clone, Copy, Debug, PartialEq, Eq, Structural)]
pub enum TokenError {
    /// The operating system's random source was unavailable.
    EntropyUnavailable,
    /// The token was not exactly [`TOKEN_CHARS`] bytes long.
    InvalidLength {
        /// Length actually supplied, in bytes.
        actual: usize,
    },
    /// The token carried a symbol outside the base64url alphabet.
    InvalidSymbol {
        /// The first offending symbol.
        symbol: char,
    },
}

/// Index of the first symbol of `s` outside the base64url alphabet.
pub open spec fn first_foreign_symbol(s: Seq<char>) -> Option<int> {
    if exists|i: int| 0 <= i < s.len() && !is_base64url_spec(#[trigger] s[i]) {
        let i = choose|i: int|
            0 <= i < s.len() && !is_base64url_spec(#[trigger] s[i]) && forall|j: int|
                0 <= j < i ==> is_base64url_spec(#[trigger] s[j]);
        Some(i)
    } else {
        None
    }
}

/// The refusal a presented token text earns, if any.
pub open spec fn token_refusal(s: Seq<char>) -> Option<TokenError> {
    if utf8_len(s) != TOKEN_CHARS {
        Some(TokenError::InvalidLength { actual: utf8_len(s) as usize })
    } else {
        match first_foreign_symbol(s) {
            Some(i) => Some(TokenError::InvalidSymbol { symbol: s[i] }),
            None => None,
        }
    }
}

/// Whether `c` belongs to the base64url alphabet.
pub fn is_base64url(c: char) -> (r: bool)
    ensures
        r == is_base64url_spec(c),
{
    ('a' <= c && c <= 'z') || ('A' <= c && c <= 'Z') || ('0' <= c && c <= '9') || c == '-'
        || c == '_'
}

/// Byte equality whose running time depends on the lengths alone: the
/// shared prefix is always folded, and a length difference alone decides.
pub fn constant_time_eq(left: &[u8], right: &[u8]) -> (r: bool)
    ensures
        r == (left@ == right@),
{
    let mut difference: usize = left.len() ^ right.len();
    let shared: usize = if left.len() < right.len() {
        left.len()
    } else {
        right.len()
    };
    proof {
        let (a, b) = (left.len(), right.len());
        assert((a ^ b) == 0usize <==> a == b) by (bit_vector);
    }
    let mut i: usize = 0;
    while i < shared
        invariant
            i <= shared,
            shared == (if left@.len() < right@.len() {
                left@.len()
            } else {
                right@.len()
            }),
            (difference == 0) == (left@.len() == right@.len() && forall|k: int|
                0 <= k < i ==> left@[k] == right@[k]),
        decreases shared - i,
    {
        let x: u8 = left[i] ^ right[i];
        proof {
            let (l, r) = (left@[i as int], right@[i as int]);
            assert((l ^ r) == 0u8 <==> l == r) by (bit_vector);
            let d = difference;
            assert(((d | (x as usize)) == 0usize) <==> (d == 0usize && x == 0u8)) by (bit_vector);
        }
        difference = difference | (x as usize);
        i += 1;
    }
    proof {
        if difference == 0 {
            assert(left@ =~= right@);
        }
    }
    difference == 0
}

/// A per-instance bearer token.
///
/// The text sits in a private field and the type has no `Debug`: nothing
/// can print it. [`InstanceToken::as_str`] is the one way out, for the
/// discovery file writer and the `Authorization` header builder.
pub struct InstanceToken(String);

impl View for InstanceToken {
    type V = Seq<char>;

    closed spec fn view(&self) -> Seq<char> {
        self.0@
    }
}

impl InstanceToken {
    #[verifier::type_invariant]
    closed spec fn well_formed(self) -> bool {
        token_refusal(self.0@) is None
    }

    /// Validates and records a token, e.g. one read back from a discovery
    /// file: exactly [`TOKEN_CHARS`] bytes, all base64url symbols.
    pub fn new(value: &str) -> (r: Result<Self, TokenError>)
        ensures
            match token_refusal(value@) {
                Some(e) => r == Err::<Self, TokenError>(e),
                None => r is Ok && r->Ok_0@ == value@,
            },
    {
        if utf8_len_exceeds(value, TOKEN_CHARS) || !utf8_len_exceeds(value, TOKEN_CHARS - 1) {
            let actual = byte_len(value);
            return Err(TokenError::InvalidLength { actual });
        }
        let mut found: Option<char> = None;
        for c in it: value.chars()
            invariant
                found is None ==> forall|j: int|
                    0 <= j < it.index() ==> is_base64url_spec(#[trigger] value@[j]),
                found matches Some(s) ==> (exists|j: int|
                    0 <= j < value@.len() && value@[j] == s && !is_base64url_spec(s)
                        && forall|k: int| 0 <= k < j ==> is_base64url_spec(#[trigger] value@[k])),
                it.seq() == value@,
                utf8_len(value@) == TOKEN_CHARS,
        {
            if found.is_none() && !is_base64url(c) {
                proof {
                    assert(value@[it.index() as int] == c);
                }
                found = Some(c);
            }
        }
        proof {
            let s = value@;
            match found {
                Some(sym) => {
                    let j = choose|j: int|
                        0 <= j < s.len() && s[j] == sym && !is_base64url_spec(sym) && forall|k: int|
                            0 <= k < j ==> is_base64url_spec(#[trigger] s[k]);
                    assert(!is_base64url_spec(s[j]));
                    let w = first_foreign_symbol(s)->Some_0;
                    if w < j {
                        assert(is_base64url_spec(s[w]));
                    }
                    if j < w {
                        assert(is_base64url_spec(s[j]));
                    }
                },
                None => {
                    assert(forall|j: int| 0 <= j < s.len() ==> is_base64url_spec(#[trigger] s[j]));
                    assert(first_foreign_symbol(s) is None);
                    assert(token_refusal(s) is None);
                },
            }
        }
        match found {
            Some(symbol) => Err(TokenError::InvalidSymbol { symbol }),
            None => Ok(InstanceToken(owned(value))),
        }
    }

    /// Generates a fresh token from the operating system's random source.
    pub fn generate() -> (r: Result<Self, TokenError>)
        ensures
            r matches Err(e) ==> e == TokenError::EntropyUnavailable,
            r matches Ok(t) ==> exists|bytes: Seq<u8>|
                bytes.len() == TOKEN_RANDOM_BYTES && t@ == base64url_unpadded(bytes),
    {
        let mut bytes: Vec<u8> = vec![0u8; TOKEN_RANDOM_BYTES];
        if !fill_random(bytes.as_mut_slice()) {
            return Err(TokenError::EntropyUnavailable);
        }
        Self::from_random(&bytes)
    }

    /// The token that `bytes`, drawn from the random source, encode to.
    pub fn from_random(bytes: &Vec<u8>) -> (r: Result<Self, TokenError>)
        requires
            bytes@.len() == TOKEN_RANDOM_BYTES,
        ensures
            r is Ok,
            r->Ok_0@ == base64url_unpadded(bytes@),
    {
        let text = encode_base64url(bytes.as_slice());
        proof {
            assert(unpadded_len(32) == 43);
            assert forall|i: int| 0 <= i < text@.len() implies (#[trigger] text@[i] as u32)
                < 0x80 by {
                assert(is_base64url_spec(text@[i]));
            }
            crate::text::lemma_utf8_len_ascii(text@);
            assert(first_foreign_symbol(text@) is None);
        }
        Self::new(text.as_str())
    }

    /// The token text.
    pub fn as_str(&self) -> (r: &str)
        ensures
            r@ == self@,
            token_refusal(r@) is None,
    {
        proof {
            use_type_invariant(self);
        }
        self.0.as_str()
    }

    /// A second handle on the same token.
    pub fn duplicate(&self) -> (r: Self)
        ensures
            r@ == self@,
    {
        proof {
            use_type_invariant(self);
        }
        InstanceToken(self.0.clone())
    }

    /// Constant-time check of a presented bearer value against this token.
    pub fn verify(&self, presented: &str) -> (r: bool)
        ensures
            r == (self@ == presented@),
    {
        let r = constant_time_eq(self.0.as_str().as_bytes(), presented.as_bytes());
        proof {
            assert(vstd::utf8::decode_utf8(vstd::utf8::encode_utf8(self@)) == self@);
            assert(vstd::utf8::decode_utf8(vstd::utf8::encode_utf8(presented@)) == presented@);
        }
        r
    }

    /// Secret comparison of two tokens, in constant time.
    pub fn same_as(&self, other: &InstanceToken) -> (r: bool)
        ensures
            r == (self@ == other@),
    {
        self.verify(other.as_str())
    }
}

} // verus!
