use vstd::prelude::*;

verus! {

/// Number of bytes in a salt and in a derived password hash.
pub const CREDENTIAL_LEN: usize = 64;

// ---------------------------------------------------------------------------
// Lowercase hex, the storage encoding of salts and password hashes.
// ---------------------------------------------------------------------------

/// The lowercase hex digit for a value below 16.
pub open spec fn hex_digit(n: u8) -> char
    recommends
        n < 16,
{
    if n < 10 {
        (((n + 48) as u8) as char)
    } else {
        (((n + 87) as u8) as char)
    }
}

/// Lowercase hex encoding: two digits per byte, most significant first.
pub open spec fn hex_of(bytes: Seq<u8>) -> Seq<char>
    decreases bytes.len(),
{
    if bytes.len() == 0 {
        Seq::empty()
    } else {
        hex_of(bytes.drop_last()).push(hex_digit(bytes.last() / 16)).push(
            hex_digit(bytes.last() % 16),
        )
    }
}

/// The value of one lowercase hex digit, if it is one.
pub open spec fn hex_val(c: char) -> Option<u8> {
    let v = c as u32;
    if 48 <= v && v <= 57 {
        Some((v - 48) as u8)
    } else if 97 <= v && v <= 102 {
        Some((v - 87) as u8)
    } else {
        None
    }
}

/// Lowercase hex decoding: defined exactly on an even number of lowercase
/// hex digits.
pub open spec fn hex_from(s: Seq<char>) -> Option<Seq<u8>>
    decreases s.len(),
{
    if s.len() == 0 {
        Some(Seq::empty())
    } else if s.len() == 1 {
        None
    } else {
        match (hex_from(s.drop_last().drop_last()), hex_val(s[s.len() - 2]), hex_val(
            s[s.len() - 1],
        )) {
            (Some(p), Some(h), Some(l)) => Some(p.push((16 * (h as int) + (l as int)) as u8)),
            _ => None,
        }
    }
}

pub proof fn lemma_hex_of_len(bytes: Seq<u8>)
    ensures
        hex_of(bytes).len() == 2 * bytes.len(),
    decreases bytes.len(),
{
    if bytes.len() > 0 {
        lemma_hex_of_len(bytes.drop_last());
    }
}

proof fn lemma_hex_digit_val(n: u8)
    requires
        n < 16,
    ensures
        hex_val(hex_digit(n)) == Some(n),
{
}

/// Decoding inverts encoding: every byte string comes back from its
/// lowercase hex form.
pub proof fn lemma_hex_round_trip(bytes: Seq<u8>)
    ensures
        hex_from(hex_of(bytes)) == Some(bytes),
    decreases bytes.len(),
{
    lemma_hex_of_len(bytes);
    if bytes.len() == 0 {
        assert(bytes =~= Seq::<u8>::empty());
    } else {
        let prefix = bytes.drop_last();
        let b = bytes.last();
        lemma_hex_round_trip(prefix);
        lemma_hex_of_len(prefix);
        let h = hex_of(bytes);
        let hp = hex_of(prefix);
        assert(h == hp.push(hex_digit(b / 16)).push(hex_digit(b % 16)));
        assert(h.drop_last() =~= hp.push(hex_digit(b / 16)));
        assert(h.drop_last().drop_last() =~= hp);
        assert(h[h.len() - 2] == hex_digit(b / 16));
        assert(h[h.len() - 1] == hex_digit(b % 16));
        lemma_hex_digit_val(b / 16);
        lemma_hex_digit_val(b % 16);
        assert((16 * ((b / 16) as int) + ((b % 16) as int)) as u8 == b);
        assert(prefix.push(b) =~= bytes);
    }
}

/// Relies on data_encoding::HEXLOWER.encode: two lowercase hex digits per
/// byte, most significant first.
#[verifier::external_body]
pub fn hex_encode(bytes: &[u8]) -> (r: String)
    requires
        2 * bytes@.len() <= usize::MAX,
    ensures
        r@ == hex_of(bytes@),
{
    data_encoding::HEXLOWER.encode(bytes)
}

/// Relies on data_encoding::HEXLOWER.decode: accepts exactly an even number
/// of lowercase hex digits and returns the bytes they spell.
#[verifier::external_body]
pub fn hex_decode(s: &str) -> (r: Option<Vec<u8>>)
    ensures
        r is Some <==> hex_from(s@) is Some,
        r matches Some(v) ==> Some(v@) == hex_from(s@),
{
    data_encoding::HEXLOWER.decode(s.as_bytes()).ok()
}

// ---------------------------------------------------------------------------
// Password derivation and verification.
// ---------------------------------------------------------------------------

/// PBKDF2-HMAC-SHA512 of the salt and password, at the scheme's fixed
/// iteration count and output length: a function of its arguments alone.
pub uninterp spec fn derived_key(salt: Seq<u8>, password: Seq<char>) -> Seq<u8>;

/// Relies on ring::rand::SystemRandom::fill: fills the buffer from the
/// system's secure random source. Nothing can be promised of the bytes
/// drawn; on the rare failure of the source, `None`.
#[verifier::external_body]
pub fn generate_salt() -> (r: Option<Vec<u8>>)
    ensures
        r matches Some(v) ==> v@.len() == CREDENTIAL_LEN,
{
    let mut salt = [0u8; 64];
    let rng = ring::rand::SystemRandom::new();
    match ring::rand::SecureRandom::fill(&rng, &mut salt) {
        Ok(()) => Some(salt.to_vec()),
        Err(_) => None,
    }
}

/// Relies on ring::pbkdf2::derive with PBKDF2_HMAC_SHA512, 100_000
/// iterations and a 64-byte output buffer: deterministic in the salt and
/// password.
#[verifier::external_body]
pub fn derive(salt: &[u8], password: &str) -> (r: Vec<u8>)
    ensures
        r@ == derived_key(salt@, password@),
        r@.len() == CREDENTIAL_LEN,
{
    let mut out = [0u8; 64];
    ring::pbkdf2::derive(
        ring::pbkdf2::PBKDF2_HMAC_SHA512,
        core::num::NonZeroU32::new(100_000).unwrap(),
        salt,
        password.as_bytes(),
        &mut out,
    );
    out.to_vec()
}

/// Relies on ring::pbkdf2::verify with the same parameters as `derive`:
/// succeeds exactly when `hash` equals the derivation from `salt` and
/// `password`, compared in constant time.
#[verifier::external_body]
fn verify_raw(salt: &[u8], password: &str, hash: &[u8]) -> (r: bool)
    requires
        hash@.len() == CREDENTIAL_LEN,
    ensures
        r == (hash@ == derived_key(salt@, password@)),
{
    ring::pbkdf2::verify(
        ring::pbkdf2::PBKDF2_HMAC_SHA512,
        core::num::NonZeroU32::new(100_000).unwrap(),
        salt,
        password.as_bytes(),
        hash,
    )
    .is_ok()
}

/// A hash verifies against a salt and password when it is exactly their
/// derivation.
pub open spec fn verifies(salt: Seq<u8>, password: Seq<char>, hash: Seq<u8>) -> bool {
    hash == derived_key(salt, password)
}

/// Recomputes the derivation and compares in constant time. A hash of the
/// wrong length can never be a derivation and is rejected outright.
pub fn verify(salt: &[u8], password: &str, hash: &[u8]) -> (r: bool)
    ensures
        hash@.len() == CREDENTIAL_LEN ==> r == verifies(salt@, password@, hash@),
        hash@.len() != CREDENTIAL_LEN ==> r == false,
{
    if hash.len() == CREDENTIAL_LEN {
        verify_raw(salt, password, hash)
    } else {
        false
    }
}

/// Deriving a hash from a salt and password always yields a hash that
/// verifies against that same salt and password.
pub proof fn lemma_derive_then_verify(salt: Seq<u8>, password: Seq<char>)
    ensures
        verifies(salt, password, derived_key(salt, password)),
{
}

/// A hash derived from one password never verifies against another, short
/// of a collision of the derivation itself: colliding password pairs are
/// left out by the second hypothesis.
pub proof fn lemma_wrong_password_fails(salt: Seq<u8>, password: Seq<char>, wrong: Seq<char>)
    requires
        wrong != password,
        derived_key(salt, wrong) != derived_key(salt, password),
    ensures
        !verifies(salt, password, derived_key(salt, wrong)),
{
}

} // verus!
