//! Randomness, identifiers and time stamps: bytes from the operating
//! system's random source, a fresh random id made of them, and the local
//! time as the library writes it into sessions and notes.
use crate::text::append_str;
use rand::rngs::OsRng;
use rand::RngCore;
use vstd::prelude::*;

verus! {

/// The hyphenated lower-case text of the version-4 UUID that
/// `uuid::Builder::from_random_bytes` builds from 16 bytes.
pub uninterp spec fn spec_uuid_text(bytes: Seq<u8>) -> Seq<char>;

/// `OsRng.try_fill_bytes` (rand_core) on `n` zeroed bytes: `Ok` with `n`
/// bytes from the operating system's random source, or `Err` with the
/// `Display` text of the source's error when it fails. Nothing is stated of
/// the bytes or of the text.
#[verifier::external_body]
pub(crate) fn random_bytes(n: usize) -> (r: Result<Vec<u8>, String>)
    requires
        n <= 16,
    ensures
        r is Ok ==> r->Ok_0@.len() == n,
{
    let mut bytes = vec![0u8; n];
    match OsRng.try_fill_bytes(&mut bytes) {
        Ok(()) => Ok(bytes),
        Err(e) => Err(e.to_string()),
    }
}

/// `uuid::Builder::from_random_bytes(bytes).into_uuid().to_string()`: its
/// text is named `spec_uuid_text`, and the hyphenated form is always 36
/// characters long.
#[verifier::external_body]
fn uuid_text(bytes: [u8; 16]) -> (r: String)
    ensures
        r@ == spec_uuid_text(bytes@),
        r@.len() == 36,
{
    uuid::Builder::from_random_bytes(bytes).into_uuid().to_string()
}

/// `chrono::Local::now().to_rfc3339()`: the local time; it depends on the
/// clock and the time zone, so nothing is stated of it.
#[verifier::external_body]
pub(crate) fn now_rfc3339() -> String {
    chrono::Local::now().to_rfc3339()
}

/// `chrono::Local::now().format("%Y-%m-%d %H:%M")`: the local time to the
/// minute; it depends on the clock and the time zone, so nothing is stated
/// of it.
#[verifier::external_body]
pub(crate) fn now_minute_stamp() -> String {
    chrono::Local::now().format("%Y-%m-%d %H:%M").to_string()
}

/// The start of the refusal when the random source fails.
pub open spec fn random_failure_prefix() -> Seq<char> {
    "Rastgele kaynak okunamadı: "@
}

/// Whether `p` starts `s`.
pub open spec fn starts_with(s: Seq<char>, p: Seq<char>) -> bool {
    p.len() <= s.len() && s.take(p.len() as int) == p
}

/// The refusal when the random source fails with `detail`.
pub fn random_failure(detail: &str) -> (r: String)
    ensures
        r@ == random_failure_prefix() + detail@,
        starts_with(r@, random_failure_prefix()),
{
    let mut r = "Rastgele kaynak okunamadı: ".to_owned();
    append_str(&mut r, detail);
    assert(r@.take(random_failure_prefix().len() as int) =~= random_failure_prefix());
    r
}

/// `n` random bytes, or the refusal when the random source fails.
pub fn draw_random(n: usize) -> (r: Result<Vec<u8>, String>)
    requires
        n <= 16,
    ensures
        r is Ok ==> r->Ok_0@.len() == n,
        r is Err ==> starts_with(r->Err_0@, random_failure_prefix()),
{
    match random_bytes(n) {
        Ok(b) => Ok(b),
        Err(e) => Err(random_failure(e.as_str())),
    }
}

/// A fresh random id: the version-4 UUID of 16 random bytes, always 36
/// characters; the refusal when the random source fails.
pub fn new_uuid() -> (r: Result<String, String>)
    ensures
        r is Ok ==> r->Ok_0@.len() == 36 && exists|b: Seq<u8>| b.len() == 16 && r->Ok_0@ == spec_uuid_text(b),
        r is Err ==> starts_with(r->Err_0@, random_failure_prefix()),
{
    let v = draw_random(16)?;
    let mut bytes = [0u8; 16];
    let mut i: usize = 0;
    while i < 16
        invariant
            i <= 16,
            v@.len() == 16,
            bytes@.len() == 16,
        decreases 16 - i,
    {
        bytes[i] = v[i];
        i = i + 1;
    }
    Ok(uuid_text(bytes))
}

} // verus!
