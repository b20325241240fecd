//! The network secret that signs LAN approvals: which stored secret is good
//! enough to keep, how a new one is drawn, and how an approval is signed
//! (HMAC-SHA256 over `email|timestamp`, written as lowercase hex).

use vstd::prelude::*;
use hmac::Mac;
use crate::devices::{utf8_shorter_than, utf8_size};
use crate::text::{
    is_ascii_alnum, is_space, lead_len, lemma_lead_len, lemma_tail_len, nat_text, owned, push_nat,
    tail_len, trim, trim_string, trimmed_chars,
};

verus! {

// ── Signing ─────────────────────────────────────────────────────────────

/// HMAC-SHA256 of the UTF-8 bytes of `message` under the UTF-8 bytes of `key`.
pub uninterp spec fn hmac_sha256_tag(key: Seq<char>, message: Seq<char>) -> Seq<u8>;

/// Computes HMAC-SHA256 with the hmac and sha2 crates (`Hmac::<Sha256>::
/// new_from_slice`, `update`, `finalize`) over the UTF-8 bytes of its
/// arguments. The tag is named by `hmac_sha256_tag` and is 32 bytes long
/// (SHA-256's output size). HMAC takes keys of any length, so the key is never
/// refused.
#[verifier::external_body]
fn hmac_sha256(key: &str, message: &str) -> (tag: Vec<u8>)
    ensures
        tag@ == hmac_sha256_tag(key@, message@),
        tag@.len() == 32,
{
    let mut mac = hmac::Hmac::<sha2::Sha256>::new_from_slice(key.as_bytes()).expect("HMAC key");
    mac.update(message.as_bytes());
    mac.finalize().into_bytes().to_vec()
}

/// The lowercase hex digit of a nibble.
pub open spec fn hex_digit(n: int) -> char {
    if n < 10 {
        (('0' as int) + n) as char
    } else {
        (('a' as int) + n - 10) as char
    }
}

/// Each byte as two lowercase hex digits, high nibble first.
pub open spec fn hex_text(b: Seq<u8>) -> Seq<char>
    decreases b.len(),
{
    if b.len() == 0 {
        Seq::empty()
    } else {
        hex_text(b.drop_last()) + seq![hex_digit(b.last() as int / 16), hex_digit(b.last() as int % 16)]
    }
}

/// Hex text is two digits per byte.
pub proof fn lemma_hex_text_len(b: Seq<u8>)
    ensures
        hex_text(b).len() == 2 * b.len(),
    decreases b.len(),
{
    if b.len() > 0 {
        lemma_hex_text_len(b.drop_last());
    }
}

/// Calls `hex::encode`, which writes each byte as two lowercase hex digits,
/// high nibble first (its `HEX_CHARS_LOWER` table).
#[verifier::external_body]
fn hex_encode(bytes: &Vec<u8>) -> (s: String)
    ensures
        s@ == hex_text(bytes@),
{
    hex::encode(bytes)
}

/// The text an approval signs: `email|timestamp`.
pub open spec fn signed_message(email: Seq<char>, ts: nat) -> Seq<char> {
    email + "|"@ + nat_text(ts)
}

/// The signature of an approval of `email` at `ts` under `secret`.
pub open spec fn signature_text(secret: Seq<char>, email: Seq<char>, ts: nat) -> Seq<char> {
    hex_text(hmac_sha256_tag(secret, signed_message(email, ts)))
}

/// The message `email|timestamp` that an approval signs.
pub fn approval_message(email: &str, timestamp: u64) -> (m: String)
    ensures
        m@ == signed_message(email@, timestamp as nat),
{
    let mut m = owned(email);
    m.append("|");
    push_nat(&mut m, timestamp);
    m
}

/// A MAC tag written as text: lowercase hex.
pub fn signature_from_tag(tag: &Vec<u8>) -> (s: String)
    ensures
        s@ == hex_text(tag@),
        s@.len() == 2 * tag@.len(),
{
    proof {
        lemma_hex_text_len(tag@);
    }
    hex_encode(tag)
}

/// Sign an approval of `email` at `timestamp` (seconds) with the network
/// secret: HMAC-SHA256 of `email|timestamp`, as 64 lowercase hex digits.
pub fn sign(secret: &str, email: &str, timestamp: u64) -> (sig: String)
    ensures
        sig@ == signature_text(secret@, email@, timestamp as nat),
        sig@.len() == 64,
{
    let message = approval_message(email, timestamp);
    let tag = hmac_sha256(secret, message.as_str());
    signature_from_tag(&tag)
}

// ── Keeping or drawing the secret ───────────────────────────────────────

/// The shortest secret worth keeping, in bytes.
pub const MIN_SECRET_BYTES: usize = 32;

/// The length of a newly drawn secret, in characters.
pub const NEW_SECRET_CHARS: usize = 64;

/// A stored secret is kept when, trimmed, it is at least 32 bytes long.
pub open spec fn usable_secret(contents: Seq<char>) -> bool {
    utf8_size(trim(contents)) >= MIN_SECRET_BYTES
}

/// The secret to keep from a stored file's text: the trimmed text, when
/// long enough.
pub fn stored_secret(contents: &str) -> (r: Option<String>)
    ensures
        match r {
            Some(s) => usable_secret(contents@) && s@ == trim(contents@),
            None => !usable_secret(contents@),
        },
{
    let t = trimmed_chars(contents);
    if utf8_shorter_than(&t, MIN_SECRET_BYTES) {
        None
    } else {
        Some(trim_string(contents))
    }
}

/// Draws `n` characters with `rand::thread_rng().sample_iter(Alphanumeric)`;
/// each is one of `A-Z`, `a-z`, `0-9` (the crate's `GEN_ASCII_STR_CHARSET`).
/// Which characters come out is left open: they are random.
#[verifier::external_body]
fn random_alphanumeric(n: usize) -> (s: String)
    ensures
        s@.len() == n,
        forall|i: int| 0 <= i < n ==> is_ascii_alnum(#[trigger] s@[i]),
{
    rand::Rng::sample_iter(rand::thread_rng(), &rand::distributions::Alphanumeric).take(n).map(
        char::from,
    ).collect()
}

/// A secret made only of ASCII letters and digits.
pub open spec fn alnum_secret(s: Seq<char>, n: nat) -> bool {
    s.len() == n && forall|i: int| 0 <= i < n ==> is_ascii_alnum(#[trigger] s[i])
}

proof fn lemma_alnum_no_space(s: Seq<char>)
    requires
        forall|i: int| 0 <= i < s.len() ==> is_ascii_alnum(#[trigger] s[i]),
    ensures
        trim(s) == s,
        utf8_size(s) == s.len(),
    decreases s.len(),
{
    lemma_lead_len(s);
    lemma_tail_len(s);
    if s.len() > 0 {
        assert(is_ascii_alnum(s[0]));
        assert(!is_space(s[0]));
        assert(lead_len(s) == 0);
        assert(is_ascii_alnum(s.last()));
        assert(!is_space(s.last()));
        assert(tail_len(s.subrange(0, s.len() as int)) == tail_len(s)) by {
            assert(s.subrange(0, s.len() as int) =~= s);
        }
        let t = s.drop_last();
        assert forall|i: int| 0 <= i < t.len() implies is_ascii_alnum(#[trigger] t[i]) by {
            assert(t[i] == s[i]);
        }
        lemma_alnum_no_space(t);
        assert(s.subrange(0, s.len() as int) =~= s);
    } else {
        assert(s.subrange(0, 0) =~= s);
    }
}

/// Draw a new secret: 64 random ASCII letters and digits, which a later
/// start keeps.
pub fn new_secret() -> (s: String)
    ensures
        alnum_secret(s@, NEW_SECRET_CHARS as nat),
        usable_secret(s@),
        trim(s@) == s@,
{
    let s = random_alphanumeric(NEW_SECRET_CHARS);
    proof {
        lemma_alnum_no_space(s@);
    }
    s
}

/// The secret to use at start: the stored one where it is usable (reported
/// as kept), else a newly drawn one (reported as new, to be stored).
pub fn choose_secret(file_contents: Option<&str>) -> (r: (String, bool))
    ensures
        match file_contents {
            Some(c) => if usable_secret(c@) {
                r.0@ == trim(c@) && !r.1
            } else {
                r.1 && alnum_secret(r.0@, NEW_SECRET_CHARS as nat) && usable_secret(r.0@)
            },
            None => r.1 && alnum_secret(r.0@, NEW_SECRET_CHARS as nat) && usable_secret(r.0@),
        },
{
    match file_contents {
        Some(c) => match stored_secret(c) {
            Some(s) => (s, false),
            None => (new_secret(), true),
        },
        None => (new_secret(), true),
    }
}

/// A drawn secret is kept as it is by the next start: choosing from the text
/// it was stored as gives it back unchanged.
pub proof fn lemma_new_secret_is_kept(s: Seq<char>)
    requires
        alnum_secret(s, NEW_SECRET_CHARS as nat),
    ensures
        usable_secret(s),
        trim(s) == s,
{
    lemma_alnum_no_space(s);
}

} // verus!
