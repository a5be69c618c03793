//! The event log's file, encrypted with AES-256-GCM under a key kept in
//! the Keychain: sealing the serialized log, opening it again, and reading
//! the stored key. Serializing the events and touching the file and the
//! Keychain are the caller's part; the cipher is the `aes-gcm` crate's and
//! the text encoding the `base64` crate's.
use vstd::prelude::*;
use crate::terminal::{base64_text, encode_base64};
use crate::text::copy_str;

verus! {

/// What the encrypted file holds: the format's version, the cipher's name,
/// and the nonce and the ciphertext in Base64.
#[derive(Debug)]
pub struct EncryptedEventsFile {
    pub version: u8,
    pub cipher: String,
    pub nonce: String,
    pub data: String,
}

/// Why the log could not be sealed, opened, or its key read.
#[derive(Clone, Copy, Debug, PartialEq, Eq, Structural)]
pub enum EventsError {
    Encrypt,
    DecodeNonce,
    DecodeData,
    Decrypt,
    DecodeKey,
}

pub open spec fn events_error_text(e: EventsError) -> Seq<char> {
    match e {
        EventsError::Encrypt => "failed to encrypt events log"@,
        EventsError::DecodeNonce => "failed to decode events nonce"@,
        EventsError::DecodeData => "failed to decode events ciphertext"@,
        EventsError::Decrypt => "failed to decrypt events log"@,
        EventsError::DecodeKey => "failed to decode events encryption key"@,
    }
}

impl EventsError {
    pub fn message(&self) -> (m: String)
        ensures
            m@ == events_error_text(*self),
    {
        match self {
            EventsError::Encrypt => copy_str("failed to encrypt events log"),
            EventsError::DecodeNonce => copy_str("failed to decode events nonce"),
            EventsError::DecodeData => copy_str("failed to decode events ciphertext"),
            EventsError::Decrypt => copy_str("failed to decrypt events log"),
            EventsError::DecodeKey => copy_str("failed to decode events encryption key"),
        }
    }
}

pub open spec fn bytes_view(o: Option<Vec<u8>>) -> Option<Seq<u8>> {
    match o {
        Some(v) => Some(v@),
        None => None,
    }
}

/// The bytes a standard Base64 text decodes to, as the `base64` crate
/// decodes it; none when it is not such a text.
pub uninterp spec fn base64_bytes(text: Seq<char>) -> Option<Seq<u8>>;

/// `general_purpose::STANDARD.decode(text)`. Besides naming the result, the
/// contract states that the text the crate writes for some bytes decodes to
/// those bytes (the engine's round trip).
#[verifier::external_body]
fn decode_base64(text: &str) -> (r: Option<Vec<u8>>)
    ensures
        bytes_view(r) == base64_bytes(text@),
        forall|b: Seq<u8>| #[trigger] base64_text(b) == text@ ==> bytes_view(r) == Some(b),
{
    base64::Engine::decode(&base64::engine::general_purpose::STANDARD, text).ok()
}

/// The AES-256-GCM ciphertext (with its tag) of a plaintext under a key
/// and a nonce; none when `aes-gcm` refuses the plaintext (too long).
pub uninterp spec fn aes256gcm_sealed(key: Seq<u8>, nonce: Seq<u8>, plaintext: Seq<u8>) -> Option<Seq<u8>>;

/// The plaintext of an AES-256-GCM ciphertext, when its tag checks out.
pub uninterp spec fn aes256gcm_opened(key: Seq<u8>, nonce: Seq<u8>, ciphertext: Seq<u8>) -> Option<Seq<u8>>;

/// The largest plaintext AES-GCM encrypts, in bytes (`P_MAX` of `aes-gcm`).
pub open spec fn aes_gcm_max_plaintext() -> nat {
    0x10_0000_0000
}

/// `Aes256Gcm::new_from_slice(key)` and `encrypt(Nonce::from_slice(nonce),
/// plaintext)`. The key and nonce lengths are those the cipher takes (a
/// nonce of another length makes `from_slice` panic). As the crate's
/// source shows, encryption fails exactly for a plaintext over `P_MAX`
/// (2^36 bytes), and the ciphertext is the plaintext's length plus the
/// 16-byte tag appended to it; the bound on the length keeps the buffer's
/// capacity (`len + 16`) from overflowing.
#[verifier::external_body]
fn aes_seal(key: &Vec<u8>, nonce: &Vec<u8>, plaintext: &Vec<u8>) -> (r: Option<Vec<u8>>)
    requires
        key@.len() == 32,
        nonce@.len() == 12,
        plaintext@.len() <= usize::MAX - 16,
    ensures
        bytes_view(r) == aes256gcm_sealed(key@, nonce@, plaintext@),
        r is Some <==> plaintext@.len() <= aes_gcm_max_plaintext(),
        r matches Some(c) ==> c@.len() == plaintext@.len() + 16,
{
    let cipher = match <aes_gcm::Aes256Gcm as aes_gcm::KeyInit>::new_from_slice(key) {
        Ok(c) => c,
        Err(_) => return None,
    };
    aes_gcm::aead::Aead::encrypt(&cipher, aes_gcm::Nonce::from_slice(nonce), plaintext.as_slice()).ok()
}

/// `Aes256Gcm::new_from_slice(key)` and `decrypt(Nonce::from_slice(nonce),
/// ciphertext)`. Besides naming the result, the contract states the
/// cipher's correctness: what was sealed under a key and nonce opens under
/// them to its plaintext.
#[verifier::external_body]
fn aes_open(key: &Vec<u8>, nonce: &Vec<u8>, ciphertext: &Vec<u8>) -> (r: Option<Vec<u8>>)
    requires
        key@.len() == 32,
        nonce@.len() == 12,
    ensures
        bytes_view(r) == aes256gcm_opened(key@, nonce@, ciphertext@),
        forall|p: Seq<u8>|
            #[trigger] aes256gcm_sealed(key@, nonce@, p) == Some(ciphertext@) ==> bytes_view(r) == Some(p),
{
    let cipher = match <aes_gcm::Aes256Gcm as aes_gcm::KeyInit>::new_from_slice(key) {
        Ok(c) => c,
        Err(_) => return None,
    };
    aes_gcm::aead::Aead::decrypt(&cipher, aes_gcm::Nonce::from_slice(nonce), ciphertext.as_slice()).ok()
}

/// `n` bytes from the operating system's random source, through `aes-gcm`'s
/// `OsRng`. Nothing is promised of them but their number.
#[verifier::external_body]
fn random_bytes(n: usize) -> (r: Vec<u8>)
    ensures
        r@.len() == n,
{
    let mut buf = vec![0u8; n];
    aes_gcm::aead::rand_core::RngCore::fill_bytes(&mut aes_gcm::aead::OsRng, &mut buf);
    buf
}

/// `f` is the serialized log `plaintext` sealed under `key` with `nonce`.
pub open spec fn is_sealed_file(f: EncryptedEventsFile, key: Seq<u8>, nonce: Seq<u8>, plaintext: Seq<u8>) -> bool {
    &&& f.version == 1
    &&& f.cipher@ == "AES-256-GCM"@
    &&& f.nonce@ == base64_text(nonce)
    &&& aes256gcm_sealed(key, nonce, plaintext) matches Some(c) && f.data@ == base64_text(c)
}

/// Whether a log of `len` bytes can be sealed: the cipher takes at most
/// 2^36 bytes, and the ciphertext with its tag must fit the Base64
/// encoder's buffer.
pub open spec fn sealable(len: nat) -> bool {
    len <= aes_gcm_max_plaintext() && len + 16 <= usize::MAX / 4
}

/// Seals the serialized log under a fresh random nonce. It succeeds
/// exactly for a log that `sealable` admits; the file then holds the
/// nonce, which its text decodes back to, and the ciphertext of the log.
pub fn seal_events(key: &Vec<u8>, plaintext: &Vec<u8>) -> (r: Result<EncryptedEventsFile, EventsError>)
    requires
        key@.len() == 32,
    ensures
        r is Ok <==> sealable(plaintext@.len()),
        r is Ok ==> exists|nonce: Seq<u8>|
            nonce.len() == 12 && #[trigger] is_sealed_file(r->Ok_0, key@, nonce, plaintext@)
                && base64_bytes(r->Ok_0.nonce@) == Some(nonce),
        r is Err ==> r->Err_0 == EventsError::Encrypt,
{
    if plaintext.len() > usize::MAX / 4 - 16 {
        return Err(EventsError::Encrypt);
    }
    let nonce = random_bytes(12);
    let ct = match aes_seal(key, &nonce, plaintext) {
        Some(c) => c,
        None => {
            return Err(EventsError::Encrypt);
        },
    };
    let f = EncryptedEventsFile {
        version: 1,
        cipher: copy_str("AES-256-GCM"),
        nonce: encode_base64(&nonce),
        data: encode_base64(&ct),
    };
    let r: Result<EncryptedEventsFile, EventsError> = Ok(f);
    assert(is_sealed_file(r->Ok_0, key@, nonce@, plaintext@) && base64_bytes(r->Ok_0.nonce@) == Some(nonce@));
    r
}

/// The file's nonce decodes to the cipher's nonce length (a file whose
/// nonce decodes to another length cannot be opened).
pub open spec fn nonce_fits(f: EncryptedEventsFile) -> bool {
    base64_bytes(f.nonce@) matches Some(n) ==> n.len() == 12
}

/// Opens the file: decodes the nonce and the ciphertext and decrypts. A
/// file sealed under the key opens to the log that was sealed.
pub fn open_events(key: &Vec<u8>, file: &EncryptedEventsFile) -> (r: Result<Vec<u8>, EventsError>)
    requires
        key@.len() == 32,
        nonce_fits(*file),
    ensures
        match base64_bytes(file.nonce@) {
            None => r == Err::<Vec<u8>, EventsError>(EventsError::DecodeNonce),
            Some(n) => match base64_bytes(file.data@) {
                None => r == Err::<Vec<u8>, EventsError>(EventsError::DecodeData),
                Some(c) => match aes256gcm_opened(key@, n, c) {
                    Some(p) => r matches Ok(v) && v@ == p,
                    None => r == Err::<Vec<u8>, EventsError>(EventsError::Decrypt),
                },
            },
        },
        forall|nonce: Seq<u8>, p: Seq<u8>|
            nonce.len() == 12 && #[trigger] is_sealed_file(*file, key@, nonce, p) ==> (r matches Ok(v) && v@ == p),
{
    let n = match decode_base64(file.nonce.as_str()) {
        Some(n) => n,
        None => {
            return Err(EventsError::DecodeNonce);
        },
    };
    let c = match decode_base64(file.data.as_str()) {
        Some(c) => c,
        None => {
            return Err(EventsError::DecodeData);
        },
    };
    match aes_open(key, &n, &c) {
        Some(p) => Ok(p),
        None => Err(EventsError::Decrypt),
    }
}

/// Opens the file unless its nonce decodes to the wrong length, which is
/// answered with none.
pub fn open_events_file(key: &Vec<u8>, file: &EncryptedEventsFile) -> (r: Option<Result<Vec<u8>, EventsError>>)
    requires
        key@.len() == 32,
    ensures
        r is None <==> !nonce_fits(*file),
        forall|nonce: Seq<u8>, p: Seq<u8>|
            nonce.len() == 12 && #[trigger] is_sealed_file(*file, key@, nonce, p) ==> (r matches Some(Ok(v)) && v@ == p),
        nonce_fits(*file) ==> match base64_bytes(file.nonce@) {
            None => r == Some(Err::<Vec<u8>, EventsError>(EventsError::DecodeNonce)),
            Some(n) => match base64_bytes(file.data@) {
                None => r == Some(Err::<Vec<u8>, EventsError>(EventsError::DecodeData)),
                Some(c) => match aes256gcm_opened(key@, n, c) {
                    Some(p) => r matches Some(Ok(v)) && v@ == p,
                    None => r == Some(Err::<Vec<u8>, EventsError>(EventsError::Decrypt)),
                },
            },
        },
{
    match decode_base64(file.nonce.as_str()) {
        Some(n) => {
            if n.len() != 12 {
                return None;
            }
        },
        None => {},
    }
    Some(open_events(key, file))
}

/// The key as stored in the Keychain: none when none is stored or the
/// stored one does not decode to 32 bytes (a new one is then made); an
/// error when the stored text is not Base64.
pub fn stored_events_key(raw: Option<&str>) -> (r: Result<Option<Vec<u8>>, EventsError>)
    ensures
        match raw {
            None => r matches Ok(None),
            Some(t) => match base64_bytes(t@) {
                None => r == Err::<Option<Vec<u8>>, EventsError>(EventsError::DecodeKey),
                Some(b) => if b.len() == 32 {
                    r matches Ok(Some(k)) && k@ == b
                } else {
                    r matches Ok(None)
                },
            },
        },
{
    match raw {
        None => Ok(None),
        Some(t) => match decode_base64(t) {
            None => Err(EventsError::DecodeKey),
            Some(b) => if b.len() == 32 {
                Ok(Some(b))
            } else {
                Ok(None)
            },
        },
    }
}

/// A new random key, and the text it is stored under in the Keychain.
pub fn new_events_key() -> (r: (Vec<u8>, String))
    ensures
        r.0@.len() == 32,
        r.1@ == base64_text(r.0@),
{
    let key = random_bytes(32);
    let text = encode_base64(&key);
    (key, text)
}

} // verus!
