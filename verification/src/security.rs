//! Sealing text for the encrypted vault: AES-256-GCM under the vault key
//! with a fresh random nonce, stored as Base64 of nonce and ciphertext, and
//! opening such a payload again.
use crate::stamps::{draw_random, random_failure_prefix, starts_with};
use crate::text::append_str;
use aes_gcm::aead::{Aead, KeyInit};
use aes_gcm::{Aes256Gcm, Nonce};
use base64::engine::general_purpose::STANDARD;
use base64::Engine;
use vstd::prelude::*;
use vstd::utf8::{decode_utf8, encode_utf8, encode_utf8_decode_utf8, encode_utf8_valid_utf8, valid_utf8};

verus! {

/// `base64::DecodeError`.
#[verifier::external_type_specification]
#[verifier::external_body]
pub struct ExDecodeError(base64::DecodeError);

/// `aes_gcm::Error`.
#[verifier::external_type_specification]
#[verifier::external_body]
pub struct ExAeadError(aes_gcm::Error);

/// `std::string::FromUtf8Error`.
#[verifier::external_type_specification]
#[verifier::external_body]
pub struct ExFromUtf8Error(std::string::FromUtf8Error);

// ---------------------------------------------------------------------
// Names of outside results
// ---------------------------------------------------------------------

/// Standard, padded Base64 of `bytes` (`base64::engine::general_purpose::STANDARD.encode`).
pub uninterp spec fn spec_base64_encode(bytes: Seq<u8>) -> Seq<char>;

/// The bytes a standard Base64 text stands for, if it is valid
/// (`STANDARD.decode`).
pub uninterp spec fn spec_base64_decode(text: Seq<char>) -> Option<Seq<u8>>;

/// AES-256-GCM ciphertext with its 16-byte tag appended
/// (`Aes256Gcm::encrypt`).
pub uninterp spec fn spec_seal(key: Seq<u8>, nonce: Seq<u8>, plaintext: Seq<u8>) -> Seq<u8>;

/// The plaintext of an AES-256-GCM ciphertext if its tag checks out
/// (`Aes256Gcm::decrypt`).
pub uninterp spec fn spec_open(key: Seq<u8>, nonce: Seq<u8>, ciphertext: Seq<u8>) -> Option<Seq<u8>>;

/// Longest plaintext AES-GCM accepts, in bytes (`aes_gcm::P_MAX`).
pub open spec fn plaintext_max() -> nat {
    0x10_0000_0000
}

// ---------------------------------------------------------------------
// Trusted items
// ---------------------------------------------------------------------

/// `STANDARD.encode` of base64: its result is named `spec_base64_encode`,
/// and decoding it gives the bytes back (the crate documents this round
/// trip). The crate panics when the encoded length overflows `usize`, which
/// `requires` rules out.
#[verifier::external_body]
pub(crate) fn base64_encode(bytes: &[u8]) -> (r: String)
    requires
        bytes@.len() / 3 * 4 + 4 <= usize::MAX,
    ensures
        r@ == spec_base64_encode(bytes@),
        spec_base64_decode(r@) == Some(bytes@),
{
    STANDARD.encode(bytes)
}

/// `STANDARD.decode` of base64 on the text's bytes: `Ok` exactly when the
/// named decoding exists, and then with those bytes.
#[verifier::external_body]
fn base64_decode(text: &str) -> (r: Result<Vec<u8>, base64::DecodeError>)
    ensures
        match r {
            Ok(b) => spec_base64_decode(text@) == Some(b@),
            Err(_) => spec_base64_decode(text@) is None,
        },
{
    STANDARD.decode(text)
}

/// The `Display` text of a base64 decoding error; nothing is stated of it.
#[verifier::external_body]
fn decode_error_text(e: &base64::DecodeError) -> String {
    format!("{}", e)
}

/// `Aes256Gcm::encrypt` under `key` and `nonce` (the cipher built with
/// `KeyInit::new` from the key). The source refuses plaintexts longer than
/// `P_MAX` and otherwise returns the sealed bytes, named `spec_seal`; the
/// crate's documentation shows that decrypting them gives the plaintext
/// back.
#[verifier::external_body]
fn aes_seal(key: &[u8; 32], nonce: &[u8; 12], plaintext: &[u8]) -> (r: Result<Vec<u8>, aes_gcm::Error>)
    ensures
        (r is Ok) == (plaintext@.len() <= plaintext_max()),
        r is Ok ==> r->Ok_0@ == spec_seal(key@, nonce@, plaintext@),
        r is Ok ==> spec_open(key@, nonce@, r->Ok_0@) == Some(plaintext@),
        r is Ok ==> r->Ok_0@.len() == plaintext@.len() + 16,
{
    let cipher = Aes256Gcm::new(key.into());
    cipher.encrypt(Nonce::from_slice(nonce), plaintext)
}

/// `Aes256Gcm::decrypt` under `key` and a 12-byte `nonce`: `Ok` exactly when
/// the named opening exists, and then with that plaintext.
/// `Nonce::from_slice` panics on any other nonce length, which `requires`
/// rules out.
#[verifier::external_body]
fn aes_open(key: &[u8; 32], nonce: &[u8], ciphertext: &[u8]) -> (r: Result<Vec<u8>, aes_gcm::Error>)
    requires
        nonce@.len() == 12,
    ensures
        match r {
            Ok(p) => spec_open(key@, nonce@, ciphertext@) == Some(p@),
            Err(_) => spec_open(key@, nonce@, ciphertext@) is None,
        },
{
    let cipher = Aes256Gcm::new(key.into());
    cipher.decrypt(Nonce::from_slice(nonce), ciphertext)
}

/// The `Display` text of an AES-GCM error; nothing is stated of it.
#[verifier::external_body]
fn aead_error_text(e: &aes_gcm::Error) -> String {
    format!("{}", e)
}

/// `String::from_utf8`: `Ok` exactly for valid UTF-8, with the decoded
/// characters.
#[verifier::external_body]
fn utf8_string(bytes: Vec<u8>) -> (r: Result<String, std::string::FromUtf8Error>)
    ensures
        (r is Ok) == valid_utf8(bytes@),
        r is Ok ==> r->Ok_0@ == decode_utf8(bytes@),
{
    String::from_utf8(bytes)
}

/// The `Display` text of a UTF-8 error; nothing is stated of it.
#[verifier::external_body]
fn utf8_error_text(e: &std::string::FromUtf8Error) -> String {
    format!("{}", e)
}

// ---------------------------------------------------------------------
// Specifications
// ---------------------------------------------------------------------

/// The bytes a plaintext is stored as: the nonce followed by the
/// ciphertext with its tag.
pub open spec fn sealed_bytes(key: Seq<u8>, nonce: Seq<u8>, plaintext: Seq<char>) -> Seq<u8> {
    nonce + spec_seal(key, nonce, encode_utf8(plaintext))
}

/// The stored form of a plaintext sealed with this nonce:
/// Base64 of nonce followed by ciphertext.
pub open spec fn sealed_payload(key: Seq<u8>, nonce: Seq<u8>, plaintext: Seq<char>) -> Seq<char> {
    spec_base64_encode(sealed_bytes(key, nonce, plaintext))
}

/// The stored form decodes to the nonce and the ciphertext with its tag:
/// 12 + (UTF-8 bytes of the plaintext) + 16 bytes.
pub open spec fn payload_layout(payload: Seq<char>, key: Seq<u8>, nonce: Seq<u8>, plaintext: Seq<char>) -> bool {
    &&& spec_base64_decode(payload) == Some(sealed_bytes(key, nonce, plaintext))
    &&& sealed_bytes(key, nonce, plaintext).len() == 12 + encode_utf8(plaintext).len() + 16
    &&& sealed_bytes(key, nonce, plaintext).take(12) == nonce
}

/// The stored form of a plaintext of `n` UTF-8 bytes fits in memory when
/// it is Base64-encoded (the bound `STANDARD.encode` needs).
pub open spec fn payload_fits(n: nat) -> bool {
    n <= plaintext_max() ==> (n + 28) / 3 * 4 + 4 <= usize::MAX
}

/// What a payload opens to under `key`, if it opens.
pub open spec fn opened_text(key: Seq<u8>, payload: Seq<char>) -> Option<Seq<char>> {
    match spec_base64_decode(payload) {
        None => None,
        Some(c) => if c.len() < 12 {
            None
        } else {
            match spec_open(key, c.take(12), c.skip(12)) {
                None => None,
                Some(p) => if valid_utf8(p) {
                    Some(decode_utf8(p))
                } else {
                    None
                },
            }
        },
    }
}

/// The refusal of a payload shorter than a nonce.
pub open spec fn short_payload_message() -> Seq<char> {
    "Geçersiz şifreli veri."@
}

/// The refusal of a payload that does not open under the key.
pub open spec fn open_failed_message() -> Seq<char> {
    "Çözme başarısız — anahtar uyuşmuyor ya da veri bozuk."@
}

// ---------------------------------------------------------------------
// Executable functions
// ---------------------------------------------------------------------

/// Seals `plaintext` under `key` with the given nonce and returns the stored
/// form, Base64 of nonce and ciphertext. The stored form opens under the
/// same key to the plaintext again.
pub fn seal_with_nonce(key: &[u8; 32], nonce: [u8; 12], plaintext: &str) -> (r: Result<String, String>)
    requires
        payload_fits(encode_utf8(plaintext@).len()),
    ensures
        (r is Ok) == (encode_utf8(plaintext@).len() <= plaintext_max()),
        r is Ok ==> r->Ok_0@ == sealed_payload(key@, nonce@, plaintext@),
        r is Ok ==> payload_layout(r->Ok_0@, key@, nonce@, plaintext@),
        r is Ok ==> opened_text(key@, r->Ok_0@) == Some(plaintext@),
        r is Err ==> starts_with(r->Err_0@, "Şifreleme hatası: "@),
{
    let bytes = plaintext.as_bytes();
    match aes_seal(key, &nonce, bytes) {
        Ok(ct) => {
            let mut combined: Vec<u8> = Vec::new();
            let mut i: usize = 0;
            while i < 12
                invariant
                    i <= 12,
                    combined@ == nonce@.take(i as int),
                decreases 12 - i,
            {
                combined.push(nonce[i]);
                i = i + 1;
                assert(combined@ =~= nonce@.take(i as int));
            }
            let mut j: usize = 0;
            while j < ct.len()
                invariant
                    j <= ct.len(),
                    combined@ == nonce@ + ct@.take(j as int),
                decreases ct.len() - j,
            {
                combined.push(ct[j]);
                j = j + 1;
                assert(combined@ =~= nonce@ + ct@.take(j as int));
            }
            proof {
                assert(nonce@.take(12) =~= nonce@);
                assert(ct@.take(ct.len() as int) =~= ct@);
                assert(combined@ == nonce@ + spec_seal(key@, nonce@, encode_utf8(plaintext@)));
            }
            let out = base64_encode(combined.as_slice());
            proof {
                let c = combined@;
                assert(c.take(12) =~= nonce@);
                assert(c == sealed_bytes(key@, nonce@, plaintext@));
                assert(c.skip(12) =~= ct@);
                encode_utf8_valid_utf8(plaintext@);
                encode_utf8_decode_utf8(plaintext@);
            }
            Ok(out)
        },
        Err(e) => {
            let mut msg = String::new();
            append_str(&mut msg, "Şifreleme hatası: ");
            let ghost head = msg@;
            let t = aead_error_text(&e);
            append_str(&mut msg, t.as_str());
            proof {
                assert(head =~= "Şifreleme hatası: "@);
                assert(msg@.take(head.len() as int) =~= head);
            }
            Err(msg)
        },
    }
}

/// Seals `plaintext` under `key` with a fresh random nonce: AES-256-GCM,
/// stored as Base64 of nonce followed by ciphertext. Whatever nonce was
/// drawn, the result decodes to that nonce and the ciphertext and opens
/// under the same key to the plaintext again. When the random source
/// fails, the refusal says so.
pub fn encrypt_string_with_key(key: &[u8; 32], plaintext: &str) -> (r: Result<String, String>)
    requires
        payload_fits(encode_utf8(plaintext@).len()),
    ensures
        encode_utf8(plaintext@).len() > plaintext_max() ==> r is Err,
        r is Ok ==> opened_text(key@, r->Ok_0@) == Some(plaintext@),
        r is Ok ==> exists|n: Seq<u8>|
            n.len() == 12 && r->Ok_0@ == sealed_payload(key@, n, plaintext@) && payload_layout(
                r->Ok_0@,
                key@,
                n,
                plaintext@,
            ),
        r is Err ==> starts_with(r->Err_0@, "Şifreleme hatası: "@) || starts_with(
            r->Err_0@,
            random_failure_prefix(),
        ),
        (r is Err && encode_utf8(plaintext@).len() <= plaintext_max()) ==> starts_with(
            r->Err_0@,
            random_failure_prefix(),
        ),
{
    let drawn = draw_random(12)?;
    let mut nonce = [0u8; 12];
    let mut i: usize = 0;
    while i < 12
        invariant
            i <= 12,
            drawn@.len() == 12,
            nonce@.len() == 12,
        decreases 12 - i,
    {
        nonce[i] = drawn[i];
        i = i + 1;
    }
    seal_with_nonce(key, nonce, plaintext)
}

/// Opens a stored payload under `key`: Base64, then a 12-byte nonce and the
/// ciphertext, then UTF-8. Each failing step has its refusal.
pub fn decrypt_string_with_key(key: &[u8; 32], payload: &str) -> (r: Result<String, String>)
    ensures
        (r is Ok) == (opened_text(key@, payload@) is Some),
        r is Ok ==> Some(r->Ok_0@) == opened_text(key@, payload@),
        spec_base64_decode(payload@) is None ==> r is Err && starts_with(
            r->Err_0@,
            "Base64 çözümlenemedi: "@,
        ),
        (spec_base64_decode(payload@) matches Some(c) && c.len() < 12) ==> r is Err && r->Err_0@
            == short_payload_message(),
        (spec_base64_decode(payload@) matches Some(c) && c.len() >= 12 && spec_open(
            key@,
            c.take(12),
            c.skip(12),
        ) is None) ==> r is Err && r->Err_0@ == open_failed_message(),
{
    let combined = match base64_decode(payload) {
        Ok(c) => c,
        Err(e) => {
            let mut msg = String::new();
            append_str(&mut msg, "Base64 çözümlenemedi: ");
            let ghost head = msg@;
            let t = decode_error_text(&e);
            append_str(&mut msg, t.as_str());
            proof {
                assert(head =~= "Base64 çözümlenemedi: "@);
                assert(msg@.take(head.len() as int) =~= head);
            }
            return Err(msg);
        },
    };
    if combined.len() < 12 {
        return Err("Geçersiz şifreli veri.".to_owned());
    }
    let mut nonce: Vec<u8> = Vec::new();
    let mut ct: Vec<u8> = Vec::new();
    let mut i: usize = 0;
    while i < combined.len()
        invariant
            12 <= combined.len(),
            i <= combined.len(),
            i <= 12 ==> nonce@ == combined@.take(i as int) && ct@.len() == 0,
            i > 12 ==> nonce@ == combined@.take(12) && ct@ == combined@.subrange(12, i as int),
        decreases combined.len() - i,
    {
        if i < 12 {
            nonce.push(combined[i]);
        } else {
            ct.push(combined[i]);
        }
        i = i + 1;
        proof {
            if i <= 12 {
                assert(nonce@ =~= combined@.take(i as int));
            } else if i == 13 {
                assert(ct@ =~= combined@.subrange(12, i as int));
            } else {
                assert(ct@ =~= combined@.subrange(12, i as int));
            }
        }
    }
    proof {
        if combined.len() == 12 {
            assert(ct@ =~= combined@.skip(12));
        } else {
            assert(combined@.subrange(12, combined.len() as int) =~= combined@.skip(12));
        }
    }
    let plain = match aes_open(key, nonce.as_slice(), ct.as_slice()) {
        Ok(p) => p,
        Err(_) => {
            return Err("Çözme başarısız — anahtar uyuşmuyor ya da veri bozuk.".to_owned());
        },
    };
    match utf8_string(plain) {
        Ok(s) => Ok(s),
        Err(e) => Err(utf8_error_text(&e)),
    }
}

/// The vault key from the bytes of the key file: exactly 32 bytes, or the
/// refusal of a damaged key file.
pub fn key_from_bytes(data: &Vec<u8>) -> (r: Result<[u8; 32], String>)
    ensures
        (r is Ok) == (data@.len() == 32),
        r is Ok ==> r->Ok_0@ == data@,
        r is Err ==> r->Err_0@ == "Anahtar dosyası bozuk (beklenen 32 byte değil)."@,
{
    if data.len() != 32 {
        return Err("Anahtar dosyası bozuk (beklenen 32 byte değil).".to_owned());
    }
    let mut key = [0u8; 32];
    let mut i: usize = 0;
    while i < 32
        invariant
            i <= 32,
            data@.len() == 32,
            key@.len() == 32,
            forall|j: int| 0 <= j < i ==> key@[j] == data@[j],
        decreases 32 - i,
    {
        key[i] = data[i];
        i = i + 1;
    }
    assert(key@ =~= data@);
    Ok(key)
}

} // verus!
