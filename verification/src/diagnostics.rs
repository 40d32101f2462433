//! Privacy-preserving identifier sanitization.

use vstd::prelude::*;

use crate::text::push_char;
use crate::timestamp::Timestamp;
use vstd::utf8::encode_utf8;
use sha2::{Digest, Sha256};

verus! {

/// Sanitized backend status suitable for export.
#[derive(Debug, Clone, PartialEq, Eq)]
pub struct DiagnosticReport {
    /// Application version.
    pub version: String,
    /// Operating system description.
    pub operating_system: String,
    /// Bluetooth backend state.
    pub backend_state: String,
    /// Sanitized device identifiers.
    pub devices: Vec<String>,
    /// Report timestamp.
    pub generated_at: Timestamp,
}

/// The SHA-256 digest of `data`.
pub uninterp spec fn sha256_digest(data: Seq<u8>) -> Seq<u8>;

/// The sanitized form of an identifier: `bt-` and the hexadecimal form of
/// the first eight bytes of the SHA-256 digest of its UTF-8 encoding.
pub open spec fn sanitized(identifier: Seq<char>) -> Seq<char> {
    "bt-"@ + lower_hex(sha256_digest(encode_utf8(identifier)).take(8))
}

/// The lower-case hexadecimal digit for `d` in `0..16`.
pub open spec fn hex_digit(d: int) -> char {
    if d < 10 {
        (('0' as int) + d) as char
    } else {
        (('a' as int) + d - 10) as char
    }
}

/// Two lower-case hexadecimal digits per byte, high digit first.
pub open spec fn lower_hex(bytes: Seq<u8>) -> Seq<char>
    decreases bytes.len(),
{
    if bytes.len() == 0 {
        Seq::empty()
    } else {
        lower_hex(bytes.drop_last()) + seq![
            hex_digit(bytes.last() as int / 16),
            hex_digit(bytes.last() as int % 16),
        ]
    }
}

/// Whether `c` is a lower-case hexadecimal digit.
pub open spec fn is_lower_hex_char(c: char) -> bool {
    ('0' <= c && c <= '9') || ('a' <= c && c <= 'f')
}

/// The hexadecimal form of bytes has two lower-case digits per byte.
pub proof fn lemma_lower_hex_shape(bytes: Seq<u8>)
    ensures
        lower_hex(bytes).len() == 2 * bytes.len(),
        forall|i: int| 0 <= i < lower_hex(bytes).len() ==> is_lower_hex_char(
            #[trigger] lower_hex(bytes)[i],
        ),
    decreases bytes.len(),
{
    if bytes.len() > 0 {
        lemma_lower_hex_shape(bytes.drop_last());
        let hi = bytes.last() as int / 16;
        let lo = bytes.last() as int % 16;
        assert(is_lower_hex_char(hex_digit(hi)));
        assert(is_lower_hex_char(hex_digit(lo)));
        let prev = lower_hex(bytes.drop_last());
        let tail = seq![hex_digit(hi), hex_digit(lo)];
        assert(lower_hex(bytes) == prev + tail);
        assert forall|i: int| 0 <= i < lower_hex(bytes).len() implies is_lower_hex_char(
            #[trigger] lower_hex(bytes)[i],
        ) by {
            if i < prev.len() {
                assert(lower_hex(bytes)[i] == prev[i]);
            } else {
                assert(lower_hex(bytes)[i] == tail[i - prev.len()]);
            }
        }
    }
}

/// Hashes `data` with SHA-256.
///
/// Trusted: `sha2::Sha256::digest`. The digest is named by `sha256_digest`
/// and, as the type's output size says, is 32 bytes long.
#[verifier::external_body]
fn sha256(data: &[u8]) -> (r: Vec<u8>)
    ensures
        r@ == sha256_digest(data@),
        r@.len() == 32,
{
    Sha256::digest(data).to_vec()
}

/// Encodes bytes as lower-case hexadecimal text.
///
/// Trusted: `hex::encode`, whose source maps each byte to the digit of its
/// high half, then of its low half, from the table `0123456789abcdef`.
#[verifier::external_body]
fn hex_encode(data: &[u8]) -> (r: String)
    ensures
        r@ == lower_hex(data@),
{
    hex::encode(data)
}

/// The sanitized identifier for a digest: `bt-` and the hexadecimal form of
/// its first eight bytes.
pub fn identifier_from_digest(digest: &[u8]) -> (r: String)
    requires
        digest@.len() >= 8,
    ensures
        r@ == "bt-"@ + lower_hex(digest@.take(8)),
{
    let mut head: Vec<u8> = Vec::new();
    let mut i: usize = 0;
    while i < 8
        invariant
            i <= 8,
            digest@.len() >= 8,
            head@ == digest@.take(i as int),
        decreases 8 - i,
    {
        head.push(digest[i]);
        assert(digest@.take(i + 1) =~= digest@.take(i as int).push(digest@[i as int]));
        i = i + 1;
    }
    let hex = hex_encode(head.as_slice());
    let mut r = String::new();
    push_char(&mut r, 'b');
    push_char(&mut r, 't');
    push_char(&mut r, '-');
    proof {
        reveal_strlit("bt-");
    }
    let n = hex.as_str().unicode_len();
    let mut k: usize = 0;
    while k < n
        invariant
            n == hex@.len(),
            k <= n,
            r@ == "bt-"@ + hex@.take(k as int),
        decreases n - k,
    {
        push_char(&mut r, hex.as_str().get_char(k));
        assert(hex@.take(k + 1) =~= hex@.take(k as int).push(hex@[k as int]));
        assert(r@ =~= "bt-"@ + hex@.take(k + 1));
        k = k + 1;
    }
    assert(hex@.take(n as int) =~= hex@);
    r
}

/// Creates a stable, non-reversible short identifier for logs: `bt-` and the
/// hexadecimal form of the first eight bytes of the identifier's SHA-256
/// digest.
///
/// The result is always `bt-` and sixteen lower-case hexadecimal digits, so no
/// character of a raw address such as `:` or an upper-case digit reaches it.
pub fn sanitize_identifier(identifier: &str) -> (r: String)
    ensures
        r@ == sanitized(identifier@),
        r@.len() == 19,
        r@.take(3) == "bt-"@,
        forall|i: int| 3 <= i < 19 ==> is_lower_hex_char(#[trigger] r@[i]),
{
    let digest = sha256(identifier.as_bytes());
    let r = identifier_from_digest(digest.as_slice());
    proof {
        reveal_strlit("bt-");
        let head = digest@.take(8);
        lemma_lower_hex_shape(head);
        assert(r@.take(3) =~= "bt-"@);
        assert forall|i: int| 3 <= i < 19 implies is_lower_hex_char(#[trigger] r@[i]) by {
            assert(r@[i] == lower_hex(head)[i - 3]);
        }
    }
    r
}

} // verus!
