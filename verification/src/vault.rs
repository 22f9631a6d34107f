//! API keys at rest. With the user-bound store (DPAPI) each key is stored as
//! `vfdpapi1:` followed by the base64 of the protected blob; the protection
//! itself is done by the operating system around this library. With the
//! passphrase vault all keys are sealed together with AES-256-GCM under a
//! key derived from the passphrase (PBKDF2-HMAC-SHA256, 210 000 rounds).
use vstd::prelude::*;
use vstd::string::*;
use vstd::utf8::{decode_utf8, encode_utf8, valid_utf8};
use zeroize::Zeroize;
use aes_gcm::aead::{Aead, KeyInit};
use rand::RngCore;
use crate::text::{
    chars_of, decimal, decimal_string, seq_starts_with, starts_with, string_of, sub_vec, trim_chars,
    trim_end_seq, trim_seq, trim_start_seq,
};
use crate::codec::{
    base64_decode, base64_encode, base64_standard, base64_standard_decode, decodes_to, is_base64_char,
    utf8_error_message, utf8_string,
};
use crate::json::{json_array_len, json_array_len_at, json_field, json_field_at, json_quote, json_quoted, lookup_view, JsonField, JsonFieldView};
use crate::prompt::strings_view;
use crate::settings::{Settings, VaultMode, VaultSealed};

verus! {

pub const DPAPI_PREFIX: &'static str = "vfdpapi1:";
pub const PBKDF2_ITERS: u32 = 210_000;
pub const SALT_LEN: usize = 16;
pub const NONCE_LEN: usize = 12;
pub const KEY_LEN: usize = 32;

// ---------------------------------------------------------------------------
// Cryptography (outside crates)
// ---------------------------------------------------------------------------

/// PBKDF2-HMAC-SHA256 of a password and salt with `rounds` rounds, `len`
/// bytes of output.
pub uninterp spec fn pbkdf2_sha256(password: Seq<u8>, salt: Seq<u8>, rounds: u32, len: nat) -> Seq<u8>;

/// AES-256-GCM encryption (ciphertext with its tag appended, no associated data).
pub uninterp spec fn aes256gcm_seal(key: Seq<u8>, nonce: Seq<u8>, plain: Seq<u8>) -> Seq<u8>;

/// AES-256-GCM decryption: `None` when the tag does not verify.
pub uninterp spec fn aes256gcm_open(key: Seq<u8>, nonce: Seq<u8>, sealed: Seq<u8>) -> Option<Seq<u8>>;

/// `pbkdf2::pbkdf2_hmac::<sha2::Sha256>` filling a buffer of `len` bytes.
/// The contract names the output and gives its length (the buffer's).
#[verifier::external_body]
fn pbkdf2_sha256_key(password: &[u8], salt: &[u8], rounds: u32, len: usize) -> (key: Vec<u8>)
    ensures
        key@ == pbkdf2_sha256(password@, salt@, rounds, len as nat),
        key@.len() == len,
{
    let mut key = vec![0u8; len];
    pbkdf2::pbkdf2_hmac::<sha2::Sha256>(password, salt, rounds, &mut key);
    key
}

/// The vault key for a passphrase and salt.
fn derive_key(passphrase: &str, salt: &[u8]) -> (key: Vec<u8>)
    ensures
        key@ == pbkdf2_sha256(encode_utf8(passphrase@), salt@, PBKDF2_ITERS, KEY_LEN as nat),
        key@.len() == KEY_LEN,
{
    pbkdf2_sha256_key(passphrase.as_bytes(), salt, PBKDF2_ITERS, KEY_LEN)
}

/// The longest plaintext AES-GCM encrypts, in bytes (`aes_gcm::P_MAX`).
pub const AES_GCM_MAX_PLAIN: u64 = 0x10_0000_0000;

/// `Aes256Gcm::encrypt` with a 32-byte key and a 12-byte nonce. The contract
/// names the ciphertext and states that decrypting it with the same key and
/// nonce gives the plaintext back. With a key of the right length the cipher
/// refuses (`None`) exactly a plaintext longer than `P_MAX`.
#[verifier::external_body]
fn aes_encrypt(key: &[u8], nonce: &[u8], plain: &[u8]) -> (r: Option<Vec<u8>>)
    requires
        key@.len() == KEY_LEN,
        nonce@.len() == NONCE_LEN,
    ensures
        r is Some <==> plain@.len() <= AES_GCM_MAX_PLAIN,
        r matches Some(c) ==> c@ == aes256gcm_seal(key@, nonce@, plain@) && aes256gcm_open(
            key@,
            nonce@,
            c@,
        ) == Some(plain@),
{
    let cipher = aes_gcm::Aes256Gcm::new_from_slice(key).ok()?;
    cipher.encrypt(aes_gcm::Nonce::from_slice(nonce), plain).ok()
}

/// `Aes256Gcm::decrypt` with a 32-byte key and a 12-byte nonce. The contract
/// names the result.
#[verifier::external_body]
fn aes_decrypt(key: &[u8], nonce: &[u8], sealed: &[u8]) -> (r: Option<Vec<u8>>)
    requires
        key@.len() == KEY_LEN,
        nonce@.len() == NONCE_LEN,
    ensures
        match r {
            Some(p) => aes256gcm_open(key@, nonce@, sealed@) == Some(p@),
            None => aes256gcm_open(key@, nonce@, sealed@) is None,
        },
{
    let cipher = aes_gcm::Aes256Gcm::new_from_slice(key).ok()?;
    cipher.decrypt(aes_gcm::Nonce::from_slice(nonce), sealed).ok()
}

/// `rand::thread_rng().fill_bytes` on `n` bytes; only the length is known.
#[verifier::external_body]
fn random_bytes(n: usize) -> (r: Vec<u8>)
    ensures
        r@.len() == n,
{
    let mut b = vec![0u8; n];
    rand::thread_rng().fill_bytes(&mut b);
    b
}

/// `Zeroize::zeroize` on a byte vector: the bytes are overwritten and the
/// vector is left empty.
#[verifier::external_body]
fn wipe_bytes(v: &mut Vec<u8>)
    ensures
        final(v)@.len() == 0,
{
    v.zeroize();
}

/// `Zeroize::zeroize` on a string: the bytes are overwritten and the string
/// is left empty.
#[verifier::external_body]
fn wipe_string(s: &mut String)
    ensures
        final(s)@.len() == 0,
{
    s.zeroize();
}

// ---------------------------------------------------------------------------
// The sealed payload
// ---------------------------------------------------------------------------

/// `{"api_keys":[...],"llm_key":...}` with JSON string literals.
pub open spec fn quoted_list(keys: Seq<Seq<char>>) -> Seq<char>
    decreases keys.len(),
{
    if keys.len() == 0 {
        Seq::empty()
    } else if keys.len() == 1 {
        json_quoted(keys[0])
    } else {
        quoted_list(keys.drop_last()) + ","@ + json_quoted(keys.last())
    }
}

pub open spec fn payload_json(keys: Seq<Seq<char>>, llm_key: Seq<char>) -> Seq<char> {
    "{\"api_keys\":["@ + quoted_list(keys) + "],\"llm_key\":"@ + json_quoted(llm_key) + "}"@
}

fn payload_text(keys: &Vec<String>, llm_key: &str) -> (r: String)
    ensures
        r@ == payload_json(strings_view(keys@), llm_key@),
{
    let mut r = String::from_str("{\"api_keys\":[");
    let ghost head = r@;
    let mut i: usize = 0;
    while i < keys.len()
        invariant
            i <= keys.len(),
            head == "{\"api_keys\":["@,
            r@ == head + quoted_list(strings_view(keys@).take(i as int)),
        decreases keys.len() - i,
    {
        assert(strings_view(keys@).take(i + 1).drop_last() == strings_view(keys@).take(i as int));
        if i > 0 {
            r.append(",");
        }
        let q = json_quote(keys[i].as_str());
        r.append(q.as_str());
        i += 1;
    }
    assert(strings_view(keys@).take(keys.len() as int) == strings_view(keys@));
    r.append("],\"llm_key\":");
    let q = json_quote(llm_key);
    r.append(q.as_str());
    r.append("}");
    r
}

/// All lookups are strings: their texts.
pub open spec fn all_texts(fields: Seq<Result<JsonFieldView, Seq<char>>>) -> Option<Seq<Seq<char>>>
    decreases fields.len(),
{
    if fields.len() == 0 {
        Some(Seq::empty())
    } else {
        match (all_texts(fields.drop_last()), fields.last()) {
            (Some(prev), Ok(JsonFieldView::Text(t))) => Some(prev.push(t)),
            _ => None,
        }
    }
}

proof fn lemma_all_texts_none(s: Seq<Result<JsonFieldView, Seq<char>>>, k: int)
    requires
        0 <= k <= s.len(),
        all_texts(s.take(k)) is None,
    ensures
        all_texts(s) is None,
    decreases s.len() - k,
{
    if k < s.len() {
        assert(s.take(k + 1).drop_last() == s.take(k));
        lemma_all_texts_none(s, k + 1);
    } else {
        assert(s.take(k) == s);
    }
}

pub open spec fn key_pointer(i: nat) -> Seq<char> {
    "/api_keys/"@ + decimal(i)
}

pub open spec fn key_lookups(text: Seq<char>, n: nat) -> Seq<Result<JsonFieldView, Seq<char>>> {
    Seq::new(n, |i: int| json_field_at(text, key_pointer(i as nat)))
}

/// The keys read back from a decrypted payload.
pub open spec fn payload_keys(plain: Seq<u8>) -> Result<(Seq<Seq<char>>, Seq<char>), Seq<char>> {
    if !valid_utf8(plain) {
        Err("vault payload is not UTF-8"@)
    } else {
        let text = decode_utf8(plain);
        match json_array_len_at(text, "/api_keys"@) {
            Err(e) => Err(e),
            Ok(None) => Err("vault payload has no api_keys list"@),
            Ok(Some(n)) => match all_texts(key_lookups(text, n)) {
                None => Err("vault payload api_keys must be strings"@),
                Some(keys) => match json_field_at(text, "/llm_key"@) {
                    Ok(JsonFieldView::Text(k)) => Ok((keys, k)),
                    Err(e) => Err(e),
                    _ => Err("vault payload llm_key must be a string"@),
                },
            },
        }
    }
}

fn key_pointer_string(i: usize) -> (r: String)
    ensures
        r@ == key_pointer(i as nat),
{
    let mut r = String::from_str("/api_keys/");
    let d = decimal_string(i as u64);
    r.append(d.as_str());
    r
}

/// Reading a payload written by [`payload_text`] gives back what was written.
pub open spec fn reads_back(r: Result<(Vec<String>, String), String>, ks: Seq<Seq<char>>, l: Seq<char>) -> bool {
    r matches Ok((kk, ll)) && strings_view(kk@) == ks && ll@ == l
}

fn read_payload(plain: Vec<u8>) -> (r: Result<(Vec<String>, String), String>)
    ensures
        match payload_keys(plain@) {
            Ok((keys, k)) => r matches Ok((ks, kk)) && strings_view(ks@) == keys && kk@ == k,
            Err(e) => r matches Err(m) && m@ == e,
        },
        (forall|ks: Seq<Seq<char>>, l: Seq<char>|
            #![trigger payload_json(ks, l)]
            plain@ == encode_utf8(payload_json(ks, l)) ==> reads_back(r, ks, l)),
{
    broadcast use vstd::utf8::encode_utf8_decode_utf8;

    let ghost bytes = plain@;
    let text = match utf8_string(plain) {
        Ok(t) => t,
        Err(_) => {
            proof {
                broadcast use vstd::utf8::encode_utf8_valid_utf8;

            }
            return Err(String::from_str("vault payload is not UTF-8"));
        },
    };
    assert forall|ks: Seq<Seq<char>>, l: Seq<char>| #![trigger payload_json(ks, l)]
        bytes == encode_utf8(payload_json(ks, l)) implies text@ == payload_json(ks, l) by {}
    let n = match json_array_len(text.as_str(), "/api_keys") {
        Err(e) => {
            return Err(e);
        },
        Ok(None) => {
            return Err(String::from_str("vault payload has no api_keys list"));
        },
        Ok(Some(n)) => n,
    };
    let ghost lookups = key_lookups(text@, n as nat);
    let mut keys: Vec<String> = Vec::new();
    let mut i: usize = 0;
    while i < n
        invariant
            i <= n,
            lookups == key_lookups(text@, n as nat),
            bytes == plain@,
            valid_utf8(bytes),
            text@ == decode_utf8(bytes),
            json_array_len_at(text@, "/api_keys"@) == Ok::<Option<nat>, Seq<char>>(Some(n as nat)),
            keys.len() == i,
            all_texts(lookups.take(i as int)) == Some(strings_view(keys@)),
            forall|ks: Seq<Seq<char>>, l: Seq<char>|
                #![trigger payload_json(ks, l)]
                bytes == encode_utf8(payload_json(ks, l)) ==> text@ == payload_json(ks, l) && n == ks.len()
                    && strings_view(keys@) == ks.take(i as int),
        decreases n - i,
    {
        assert(lookups.take(i + 1).drop_last() == lookups.take(i as int));
        assert(lookups.take(i + 1).last() == json_field_at(text@, key_pointer(i as nat)));
        let p = key_pointer_string(i);
        let f = json_field(text.as_str(), p.as_str());
        assert(lookup_view(f) == lookups.take(i + 1).last());
        match f {
            Ok(JsonField::Text(k)) => {
                let ghost before = strings_view(keys@);
                keys.push(k);
                assert(strings_view(keys@) =~= before.push(keys@[i as int]@));
                assert forall|ks: Seq<Seq<char>>, l: Seq<char>| #![trigger payload_json(ks, l)]
                    bytes == encode_utf8(payload_json(ks, l)) implies text@ == payload_json(ks, l) && n
                    == ks.len() && strings_view(keys@) == ks.take(i + 1) by {
                    assert(key_pointer(i as nat) == p@);
                    assert(ks.take(i + 1) =~= ks.take(i as int).push(ks[i as int]));
                }
            },
            _ => {
                proof {
                    assert(!(lookups.take(i + 1).last() matches Ok(JsonFieldView::Text(_))));
                    assert(all_texts(lookups.take(i + 1)) is None);
                    lemma_all_texts_none(lookups, i + 1);
                    assert forall|ks: Seq<Seq<char>>, l: Seq<char>| #![trigger payload_json(ks, l)]
                        bytes == encode_utf8(payload_json(ks, l)) implies false by {
                        assert(key_pointer(i as nat) == p@);
                    }
                }
                return Err(String::from_str("vault payload api_keys must be strings"));
            },
        }
        i += 1;
    }
    assert(lookups.take(n as int) == lookups);
    let last = json_field(text.as_str(), "/llm_key");
    proof {
        assert forall|ks: Seq<Seq<char>>, l: Seq<char>| #![trigger payload_json(ks, l)]
            bytes == encode_utf8(payload_json(ks, l)) implies lookup_view(last) == Ok::<
            JsonFieldView,
            Seq<char>,
        >(JsonFieldView::Text(l)) && strings_view(keys@) == ks by {
            assert(ks.take(n as int) =~= ks);
        }
    }
    match last {
        Ok(JsonField::Text(k)) => Ok((keys, k)),
        Err(e) => Err(e),
        _ => Err(String::from_str("vault payload llm_key must be a string")),
    }
}

// ---------------------------------------------------------------------------
// Sealing and opening
// ---------------------------------------------------------------------------

/// What opening a sealed vault with a passphrase yields: the decrypted
/// payload bytes and the derived key, or why it failed.
pub open spec fn open_sealed(pass: Seq<char>, sealed: VaultSealed) -> Result<(Seq<u8>, Seq<u8>), Seq<char>> {
    match base64_standard_decode(sealed.salt_b64@) {
        Err(e) => Err("salt decode: "@ + e),
        Ok(salt) => match base64_standard_decode(sealed.nonce_b64@) {
            Err(e) => Err("nonce decode: "@ + e),
            Ok(nonce) => match base64_standard_decode(sealed.ciphertext_b64@) {
                Err(e) => Err("ciphertext decode: "@ + e),
                Ok(ct) => if nonce.len() != NONCE_LEN {
                    Err("invalid nonce length"@)
                } else {
                    let key = pbkdf2_sha256(encode_utf8(pass), salt, PBKDF2_ITERS, KEY_LEN as nat);
                    match aes256gcm_open(key, nonce, ct) {
                        None => Err("Wrong passphrase or corrupted vault"@),
                        Some(p) => Ok((p, key)),
                    }
                },
            },
        },
    }
}

fn prefixed(prefix: &str, s: &String) -> (r: String)
    ensures
        r@ == prefix@ + s@,
{
    let mut r = String::from_str(prefix);
    r.append(s.as_str());
    r
}

fn open_payload(passphrase: &str, sealed: &VaultSealed) -> (r: Result<(Vec<u8>, Vec<u8>), String>)
    ensures
        match open_sealed(passphrase@, *sealed) {
            Ok((p, k)) => r matches Ok((pp, kk)) && pp@ == p && kk@ == k,
            Err(e) => r matches Err(m) && m@ == e,
        },
{
    let salt = match base64_decode(sealed.salt_b64.as_str()) {
        Ok(b) => b,
        Err(e) => {
            return Err(prefixed("salt decode: ", &e));
        },
    };
    let nonce = match base64_decode(sealed.nonce_b64.as_str()) {
        Ok(b) => b,
        Err(e) => {
            return Err(prefixed("nonce decode: ", &e));
        },
    };
    let ct = match base64_decode(sealed.ciphertext_b64.as_str()) {
        Ok(b) => b,
        Err(e) => {
            return Err(prefixed("ciphertext decode: ", &e));
        },
    };
    if nonce.len() != NONCE_LEN {
        return Err(String::from_str("invalid nonce length"));
    }
    let key = derive_key(passphrase, &salt);
    match aes_decrypt(&key, &nonce, &ct) {
        None => Err(String::from_str("Wrong passphrase or corrupted vault")),
        Some(p) => Ok((p, key)),
    }
}

/// Seal the keys under the passphrase with a fresh random salt and nonce.
/// Whatever those are, opening the result with the same passphrase gives
/// back exactly the payload that was sealed.
fn seal_payload(passphrase: &str, keys: &Vec<String>, llm_key: &str) -> (r: Result<VaultSealed, String>)
    ensures
        r is Ok <==> encode_utf8(payload_json(strings_view(keys@), llm_key@)).len() <= AES_GCM_MAX_PLAIN,
        r matches Err(e) ==> e@ == "AES-GCM encrypt failed"@,
        r matches Ok(sealed) ==> open_sealed(passphrase@, sealed) matches Ok((p, _)) && p
            == encode_utf8(payload_json(strings_view(keys@), llm_key@)),
{
    let salt = random_bytes(SALT_LEN);
    let nonce = random_bytes(NONCE_LEN);
    let key = derive_key(passphrase, &salt);
    let text = payload_text(keys, llm_key);
    let plain = text.as_str().as_bytes();
    let ct = match aes_encrypt(&key, &nonce, plain) {
        Some(c) => c,
        None => {
            return Err(String::from_str("AES-GCM encrypt failed"));
        },
    };
    Ok(
        VaultSealed {
            salt_b64: base64_encode(&salt),
            nonce_b64: base64_encode(&nonce),
            ciphertext_b64: base64_encode(&ct),
        },
    )
}

// ---------------------------------------------------------------------------
// The unlocked session
// ---------------------------------------------------------------------------

/// The unlocked passphrase vault: the derived key and the passphrase, kept
/// in memory so that settings can be sealed again when saved.
#[derive(Debug)]
pub struct VaultSession {
    key: Option<Vec<u8>>,
    pass: Option<String>,
}

pub struct VaultSessionView {
    pub key: Option<Seq<u8>>,
    pub pass: Option<Seq<char>>,
}

impl View for VaultSession {
    type V = VaultSessionView;

    closed spec fn view(&self) -> VaultSessionView {
        VaultSessionView {
            key: match self.key {
                Some(k) => Some(k@),
                None => None,
            },
            pass: match self.pass {
                Some(p) => Some(p@),
                None => None,
            },
        }
    }
}

impl VaultSession {
    /// Locked.
    pub fn new() -> (s: VaultSession)
        ensures
            s@.key is None,
            s@.pass is None,
    {
        VaultSession { key: None, pass: None }
    }
}

/// Is the vault unlocked?
pub fn vault_session_active(session: &VaultSession) -> (r: bool)
    ensures
        r == session@.key is Some,
{
    session.key.is_some()
}

/// Forget the key and passphrase, overwriting them first.
pub fn vault_clear_session(session: &mut VaultSession)
    ensures
        final(session)@.key is None,
        final(session)@.pass is None,
{
    if let Some(k) = &mut session.key {
        wipe_bytes(k);
    }
    session.key = None;
    if let Some(p) = &mut session.pass {
        wipe_string(p);
    }
    session.pass = None;
}

/// Is there a sealed vault that has not been unlocked?
pub open spec fn needs_unlock(settings: Settings, session: VaultSessionView) -> bool {
    settings.vault.mode == VaultMode::Passphrase && settings.vault.sealed is Some && session.key is None
}

pub fn vault_needs_unlock(settings: &Settings, session: &VaultSession) -> (r: bool)
    ensures
        r == needs_unlock(*settings, session@),
{
    settings.vault.mode == VaultMode::Passphrase && settings.vault.sealed.is_some()
        && !vault_session_active(session)
}

/// What unlocking yields: the keys and the derived key, or why it failed.
pub open spec fn unlock_outcome(settings: Settings, pass: Seq<char>) -> Result<(Seq<Seq<char>>, Seq<char>, Seq<u8>), Seq<char>> {
    if settings.vault.mode != VaultMode::Passphrase {
        Err("Vault is not in passphrase mode"@)
    } else {
        match settings.vault.sealed {
            None => Err("No sealed vault — enable passphrase mode first"@),
            Some(sealed) => match open_sealed(pass, sealed) {
                Err(e) => Err(e),
                Ok((plain, key)) => match payload_keys(plain) {
                    Err(e) => Err(e),
                    Ok((keys, llm)) => Ok((keys, llm, key)),
                },
            },
        }
    }
}

/// The vault in `settings` is a passphrase vault that opens, under `pass`,
/// to the payload written for the keys `ks` and the language-model key `l`
/// (as [`protect_settings_for_disk`] and [`vault_enable_passphrase`] seal it).
pub open spec fn opens_to(settings: Settings, pass: Seq<char>, ks: Seq<Seq<char>>, l: Seq<char>) -> bool {
    &&& settings.vault.mode == VaultMode::Passphrase
    &&& settings.vault.sealed matches Some(sd)
    &&& open_sealed(pass, sd) matches Ok((p, _))
    &&& p == encode_utf8(payload_json(ks, l))
}

/// Unlock the passphrase vault: the sealed keys are filled into the
/// settings and the session remembers the key and passphrase. On failure
/// nothing changes. A vault sealed for some keys under this passphrase
/// unlocks, and gives exactly those keys back.
pub fn vault_unlock(settings: &mut Settings, session: &mut VaultSession, passphrase: &str) -> (r: Result<(), String>)
    ensures
        (forall|ks: Seq<Seq<char>>, l: Seq<char>|
            #![trigger opens_to(*old(settings), passphrase@, ks, l)]
            opens_to(*old(settings), passphrase@, ks, l) ==> r is Ok && strings_view(
                final(settings).stt.api_keys@,
            ) == ks && final(settings).llm.api_key@ == l),
        match unlock_outcome(*old(settings), passphrase@) {
            Err(e) => r matches Err(m) && m@ == e && *final(settings) == *old(settings)
                && final(session)@ == old(session)@,
            Ok((keys, llm, key)) => r is Ok && *final(settings) == (Settings {
                stt: crate::settings::SttSettings { api_keys: final(settings).stt.api_keys, ..old(settings).stt },
                llm: crate::settings::LlmSettings { api_key: final(settings).llm.api_key, ..old(settings).llm },
                ..*old(settings)
            }) && strings_view(final(settings).stt.api_keys@) == keys && final(settings).llm.api_key@
                == llm && final(session)@.key == Some(key) && final(session)@.pass == Some(
                passphrase@,
            ),
        },
{
    if settings.vault.mode != VaultMode::Passphrase {
        return Err(String::from_str("Vault is not in passphrase mode"));
    }
    let opened = match &settings.vault.sealed {
        None => {
            return Err(String::from_str("No sealed vault — enable passphrase mode first"));
        },
        Some(sealed) => open_payload(passphrase, sealed),
    };
    let (plain, key) = match opened {
        Err(e) => {
            return Err(e);
        },
        Ok(pk) => pk,
    };
    let (keys, llm) = match read_payload(plain) {
        Err(e) => {
            return Err(e);
        },
        Ok(p) => p,
    };
    settings.stt.api_keys = keys;
    settings.llm.api_key = llm;
    session.key = Some(key);
    session.pass = Some(String::from_str(passphrase));
    Ok(())
}

/// Switch to passphrase mode, sealing the keys held in memory. A passphrase
/// needs at least 8 characters.
pub fn vault_enable_passphrase(settings: &mut Settings, session: &mut VaultSession, passphrase: &str) -> (r: Result<(), String>)
    ensures
        passphrase@.len() < 8 ==> (r matches Err(m) && m@ == "Passphrase must be at least 8 characters"@),
        passphrase@.len() >= 8 ==> (r is Ok <==> encode_utf8(
            payload_json(strings_view(old(settings).stt.api_keys@), old(settings).llm.api_key@),
        ).len() <= AES_GCM_MAX_PLAIN),
        passphrase@.len() >= 8 && r is Err ==> (r matches Err(m) && m@ == "AES-GCM encrypt failed"@),
        r is Err ==> *final(settings) == *old(settings),
        *final(settings) == (Settings { vault: final(settings).vault, ..*old(settings) }),
        r is Ok ==> {
            &&& final(settings).vault.mode == VaultMode::Passphrase
            &&& final(settings).vault.sealed matches Some(sealed)
            &&& open_sealed(passphrase@, sealed) matches Ok((p, k))
            &&& p == encode_utf8(
                payload_json(strings_view(old(settings).stt.api_keys@), old(settings).llm.api_key@),
            )
            &&& final(session)@.key == Some(k)
            &&& final(session)@.pass == Some(passphrase@)
        },
{
    if chars_of(passphrase).len() < 8 {
        return Err(String::from_str("Passphrase must be at least 8 characters"));
    }
    let sealed = match seal_payload(passphrase, &settings.stt.api_keys, settings.llm.api_key.as_str()) {
        Ok(s) => s,
        Err(e) => {
            return Err(e);
        },
    };
    let key = match open_payload(passphrase, &sealed) {
        Ok((_, k)) => k,
        Err(e) => {
            return Err(e);
        },
    };
    settings.vault.mode = VaultMode::Passphrase;
    settings.vault.sealed = Some(sealed);
    session.key = Some(key);
    session.pass = Some(String::from_str(passphrase));
    Ok(())
}

/// Switch back to the user-bound store; the keys stay in memory.
pub fn vault_enable_dpapi(settings: &mut Settings, session: &mut VaultSession) -> (r: Result<(), String>)
    ensures
        r is Ok,
        *final(settings) == (Settings {
            vault: crate::settings::VaultSettings { mode: VaultMode::Dpapi, sealed: None },
            ..*old(settings)
        }),
        final(session)@.key is None,
        final(session)@.pass is None,
{
    settings.vault.mode = VaultMode::Dpapi;
    settings.vault.sealed = None;
    vault_clear_session(session);
    Ok(())
}

/// A stored key after the user-bound store was asked to unprotect it: what it
/// gave back, or the stored text kept when it could not.
pub open spec fn unprotected_or_kept(stored: Seq<char>, got: Option<String>) -> Seq<char> {
    match got {
        Some(k) => k@,
        None => stored,
    }
}

/// After loading. With the user-bound store each key is replaced by what the
/// operating system gave back for it (`keys[i]` for the i-th speech key,
/// `llm_key` for the language-model key; `None` where unprotecting failed,
/// which keeps the stored text) and any sealed vault is dropped. With the
/// passphrase vault nothing changes: the keys come from unlocking.
pub fn unprotect_settings_secrets(settings: &mut Settings, keys: Vec<Option<String>>, llm_key: Option<String>)
    requires
        keys.len() == old(settings).stt.api_keys.len(),
    ensures
        old(settings).vault.mode == VaultMode::Passphrase ==> *final(settings) == *old(settings),
        old(settings).vault.mode == VaultMode::Dpapi ==> {
            &&& final(settings).stt.api_keys@.len() == old(settings).stt.api_keys@.len()
            &&& forall|i: int|
                0 <= i < keys@.len() ==> #[trigger] final(settings).stt.api_keys@[i]@ == unprotected_or_kept(
                    old(settings).stt.api_keys@[i]@,
                    keys@[i],
                )
            &&& final(settings).llm.api_key@ == unprotected_or_kept(old(settings).llm.api_key@, llm_key)
            &&& *final(settings) == (Settings {
                vault: crate::settings::VaultSettings { sealed: None, ..old(settings).vault },
                stt: crate::settings::SttSettings { api_keys: final(settings).stt.api_keys, ..old(settings).stt },
                llm: crate::settings::LlmSettings { api_key: final(settings).llm.api_key, ..old(settings).llm },
                ..*old(settings)
            })
        },
{
    match settings.vault.mode {
        VaultMode::Passphrase => {},
        VaultMode::Dpapi => {
            let mut out: Vec<String> = Vec::new();
            let mut i: usize = 0;
            while i < keys.len()
                invariant
                    keys.len() == settings.stt.api_keys.len(),
                    i <= keys.len(),
                    out@.len() == i,
                    forall|j: int|
                        0 <= j < i ==> #[trigger] out@[j]@ == unprotected_or_kept(
                            settings.stt.api_keys@[j]@,
                            keys@[j],
                        ),
                decreases keys.len() - i,
            {
                match &keys[i] {
                    Some(k) => out.push(k.clone()),
                    None => out.push(settings.stt.api_keys[i].clone()),
                }
                i += 1;
            }
            settings.stt.api_keys = out;
            match llm_key {
                Some(k) => settings.llm.api_key = k,
                None => {},
            }
            settings.vault.sealed = None;
        },
    }
}

/// Settings as they go to disk.
#[derive(Debug)]
pub enum DiskSettings {
    /// Keys sealed in the vault and cleared from the plain fields.
    Sealed(Settings),
    /// Each key still has to be protected with the user-bound store.
    ProtectKeys(Settings),
}

/// Prepare settings for disk. In passphrase mode the keys are sealed under
/// the session's passphrase (the vault must be unlocked) and the plain key
/// fields are cleared; in DPAPI mode the sealed vault is dropped and the
/// keys are left for the caller to protect one by one.
pub fn protect_settings_for_disk(settings: Settings, session: &VaultSession) -> (r: Result<DiskSettings, String>)
    ensures
        settings.vault.mode == VaultMode::Dpapi ==> (r matches Ok(DiskSettings::ProtectKeys(s)) && s
            == (Settings { vault: crate::settings::VaultSettings { sealed: None, ..settings.vault }, ..settings })),
        settings.vault.mode == VaultMode::Passphrase && session@.pass is None ==> (r matches Err(m)
            && m@ == "Unlock the vault before saving keys"@),
        settings.vault.mode == VaultMode::Passphrase && session@.pass is Some ==> (r matches Ok(
            DiskSettings::Sealed(_),
        ) <==> encode_utf8(payload_json(strings_view(settings.stt.api_keys@), settings.llm.api_key@)).len()
            <= AES_GCM_MAX_PLAIN),
        settings.vault.mode == VaultMode::Passphrase && session@.pass is Some && !(r matches Ok(
            DiskSettings::Sealed(_),
        )) ==> (r matches Err(m) && m@ == "AES-GCM encrypt failed"@),
        r matches Ok(DiskSettings::Sealed(s)) ==> opens_to(
            s,
            session@.pass->0,
            strings_view(settings.stt.api_keys@),
            settings.llm.api_key@,
        ),
        r matches Ok(DiskSettings::Sealed(s)) ==> {
            &&& settings.vault.mode == VaultMode::Passphrase
            &&& session@.pass is Some
            &&& s.stt.api_keys@.len() == 0
            &&& s.llm.api_key@.len() == 0
            &&& s.vault.mode == VaultMode::Passphrase
            &&& s.vault.sealed matches Some(sealed)
            &&& open_sealed(session@.pass->0, sealed) matches Ok((p, _))
            &&& p == encode_utf8(payload_json(strings_view(settings.stt.api_keys@), settings.llm.api_key@))
            &&& s == (Settings {
                vault: s.vault,
                stt: crate::settings::SttSettings { api_keys: s.stt.api_keys, ..settings.stt },
                llm: crate::settings::LlmSettings { api_key: s.llm.api_key, ..settings.llm },
                ..settings
            })
        },
{
    let mut out = settings;
    match out.vault.mode {
        VaultMode::Dpapi => {
            out.vault.sealed = None;
            Ok(DiskSettings::ProtectKeys(out))
        },
        VaultMode::Passphrase => {
            let pass = match &session.pass {
                Some(p) => p,
                None => {
                    return Err(String::from_str("Unlock the vault before saving keys"));
                },
            };
            let sealed = match seal_payload(pass.as_str(), &out.stt.api_keys, out.llm.api_key.as_str()) {
                Ok(s) => s,
                Err(e) => {
                    return Err(e);
                },
            };
            out.vault.sealed = Some(sealed);
            out.stt.api_keys = Vec::new();
            out.llm.api_key = String::new();
            Ok(DiskSettings::Sealed(out))
        },
    }
}

// ---------------------------------------------------------------------------
// User-bound store framing
// ---------------------------------------------------------------------------

/// What to do with one stored key.
#[derive(Debug)]
pub enum DpapiStep {
    /// Nothing to protect or unprotect: this is the result.
    Done(String),
    /// Hand these bytes to the operating system's protection.
    Call(Vec<u8>),
}

pub open spec fn prefix_seq() -> Seq<char> {
    DPAPI_PREFIX@
}

/// Before protecting: blank keys stay empty, already protected ones stay as
/// they are, others go to the operating system as UTF-8.
pub fn protect_plan(plain: &str) -> (r: DpapiStep)
    ensures
        is_blank_text(plain@) ==> (r matches DpapiStep::Done(s) && s@.len() == 0),
        !is_blank_text(plain@) && seq_starts_with(trim_seq(plain@), prefix_seq()) ==> (r matches DpapiStep::Done(s) && s@ == trim_seq(plain@)),
        !is_blank_text(plain@) && !seq_starts_with(trim_seq(plain@), prefix_seq()) ==> (r matches DpapiStep::Call(b) && b@ == encode_utf8(trim_seq(plain@))),
{
    let t = trim_chars(&chars_of(plain));
    if t.len() == 0 {
        return DpapiStep::Done(String::new());
    }
    let p = chars_of(DPAPI_PREFIX);
    let s = string_of(&t);
    if starts_with(&t, &p) {
        return DpapiStep::Done(s);
    }
    let bytes = s.as_str().as_bytes();
    let mut v: Vec<u8> = Vec::new();
    let mut i: usize = 0;
    while i < bytes.len()
        invariant
            i <= bytes.len(),
            v@ == bytes@.take(i as int),
        decreases bytes.len() - i,
    {
        v.push(bytes[i]);
        assert(bytes@.take(i + 1) == bytes@.take(i as int).push(bytes@[i as int]));
        i += 1;
    }
    assert(bytes@.take(bytes.len() as int) == bytes@);
    DpapiStep::Call(v)
}

pub open spec fn is_blank_text(s: Seq<char>) -> bool {
    trim_seq(s).len() == 0
}

/// A stored key as protecting leaves it: already trimmed, not blank, with
/// the prefix, and the rest decodes to the protected blob. Unprotecting it
/// hands the operating system exactly that blob, and protecting it again
/// leaves it as it is.
pub open spec fn stored_protected(s: Seq<char>, blob: Seq<u8>) -> bool {
    &&& trim_seq(s) == s
    &&& !is_blank_text(s)
    &&& seq_starts_with(s, prefix_seq())
    &&& decodes_to(s.skip(prefix_seq().len() as int), blob)
}

/// After protecting: the stored form of the protected blob.
pub fn protect_finish(blob: &[u8]) -> (r: Result<String, String>)
    ensures
        blob@.len() == 0 ==> (r matches Err(m) && m@ == "DPAPI returned empty blob"@),
        blob@.len() > 0 ==> (r matches Ok(s) && s@ == prefix_seq() + base64_standard(blob@)),
        r matches Ok(s) ==> stored_protected(s@, blob@),
{
    proof {
        reveal_strlit("vfdpapi1:");
    }
    if blob.len() == 0 {
        return Err(String::from_str("DPAPI returned empty blob"));
    }
    let mut s = String::from_str(DPAPI_PREFIX);
    let e = base64_encode(blob);
    s.append(e.as_str());
    proof {
        let p = prefix_seq();
        assert(s@[0] == 'v');
        assert(trim_start_seq(s@) == s@);
        assert(s@.last() == e@[e@.len() - 1]);
        assert(is_base64_char(e@[e@.len() - 1]));
        assert(trim_end_seq(s@) == s@);
        assert(s@.take(p.len() as int) =~= p);
        assert(s@.skip(p.len() as int) =~= e@);
    }
    Ok(s)
}

/// Before unprotecting: blank stays empty, unprefixed text is taken as a
/// plain key, a prefixed one is decoded for the operating system.
pub fn unprotect_plan(stored: &str) -> (r: Result<DpapiStep, String>)
    ensures
        is_blank_text(stored@) ==> (r matches Ok(DpapiStep::Done(s)) && s@.len() == 0),
        !is_blank_text(stored@) && !seq_starts_with(trim_seq(stored@), prefix_seq()) ==> (r matches Ok(DpapiStep::Done(s)) && s@ == trim_seq(stored@)),
        !is_blank_text(stored@) && seq_starts_with(trim_seq(stored@), prefix_seq()) ==> (match base64_standard_decode(trim_seq(stored@).skip(prefix_seq().len() as int)) {
            Ok(b) => r matches Ok(DpapiStep::Call(v)) && v@ == b,
            Err(e) => r matches Err(m) && m@ == "DPAPI blob base64 decode failed: "@ + e,
        }),
{
    let t = trim_chars(&chars_of(stored));
    if t.len() == 0 {
        return Ok(DpapiStep::Done(String::new()));
    }
    let p = chars_of(DPAPI_PREFIX);
    if !starts_with(&t, &p) {
        return Ok(DpapiStep::Done(string_of(&t)));
    }
    let rest = sub_vec(&t, p.len(), t.len());
    assert(rest@ == t@.skip(p@.len() as int));
    let b64 = string_of(&rest);
    match base64_decode(b64.as_str()) {
        Ok(b) => Ok(DpapiStep::Call(b)),
        Err(e) => Err(prefixed("DPAPI blob base64 decode failed: ", &e)),
    }
}

/// After unprotecting: the key as text.
pub fn unprotect_finish(plain: Vec<u8>) -> (r: Result<String, String>)
    ensures
        plain@.len() == 0 ==> (r matches Err(m) && m@ == "DPAPI unprotect returned empty"@),
        plain@.len() > 0 && valid_utf8(plain@) ==> (r matches Ok(s) && s@ == decode_utf8(plain@)),
        plain@.len() > 0 && !valid_utf8(plain@) ==> (r matches Err(m) && m@ == "DPAPI plaintext not UTF-8: "@
            + utf8_error_message(plain@)),
{
    if plain.len() == 0 {
        return Err(String::from_str("DPAPI unprotect returned empty"));
    }
    match utf8_string(plain) {
        Ok(s) => Ok(s),
        Err(e) => Err(prefixed("DPAPI plaintext not UTF-8: ", &e)),
    }
}

// ---------------------------------------------------------------------------
// Saving with the user-bound store
// ---------------------------------------------------------------------------

/// What the operating system answered when asked to protect a key's bytes
/// (`None` where it was not asked).
pub open spec fn os_view(o: Option<Result<Vec<u8>, String>>) -> Option<Result<Seq<u8>, Seq<char>>> {
    match o {
        Some(Ok(b)) => Some(Ok(b@)),
        Some(Err(e)) => Some(Err(e@)),
        None => None,
    }
}

pub open spec fn os_views(v: Seq<Option<Result<Vec<u8>, String>>>) -> Seq<Option<Result<Seq<u8>, Seq<char>>>> {
    v.map_values(|o: Option<Result<Vec<u8>, String>>| os_view(o))
}

/// One key as it is written to disk with the user-bound store: blank keys
/// stay empty, protected ones stay (trimmed), others are framed around what
/// the operating system returned for them.
pub open spec fn protected_key(plain: Seq<char>, os: Option<Result<Seq<u8>, Seq<char>>>) -> Result<Seq<char>, Seq<char>> {
    if is_blank_text(plain) {
        Ok(Seq::empty())
    } else if seq_starts_with(trim_seq(plain), prefix_seq()) {
        Ok(trim_seq(plain))
    } else {
        match os {
            Some(Ok(b)) => if b.len() == 0 {
                Err("DPAPI returned empty blob"@)
            } else {
                Ok(prefix_seq() + base64_standard(b))
            },
            Some(Err(e)) => Err(e),
            None => Err("DPAPI was not asked to protect a key"@),
        }
    }
}

/// All keys, in order; the first failure stops.
pub open spec fn protected_keys(keys: Seq<Seq<char>>, os: Seq<Option<Result<Seq<u8>, Seq<char>>>>) -> Result<
    Seq<Seq<char>>,
    Seq<char>,
>
    decreases keys.len(),
{
    if keys.len() == 0 {
        Ok(Seq::empty())
    } else {
        match protected_keys(keys.drop_last(), os.take(keys.len() - 1)) {
            Err(e) => Err(e),
            Ok(prev) => match protected_key(keys.last(), os[keys.len() - 1]) {
                Err(e) => Err(e),
                Ok(k) => Ok(prev.push(k)),
            },
        }
    }
}

/// A written key is empty for a blank input, the trimmed input when that
/// was already protected, and otherwise carries the prefix, is trimmed, and
/// decodes to exactly the blob the operating system returned: unprotecting
/// it hands that blob back.
pub open spec fn written_key(plain: Seq<char>, os: Option<Result<Seq<u8>, Seq<char>>>, k: Seq<char>) -> bool {
    if is_blank_text(plain) {
        k.len() == 0
    } else if seq_starts_with(trim_seq(plain), prefix_seq()) {
        k == trim_seq(plain) && seq_starts_with(k, prefix_seq())
    } else {
        os matches Some(Ok(b)) && stored_protected(k, b)
    }
}

fn protect_one(plain: &str, os: &Option<Result<Vec<u8>, String>>) -> (r: Result<String, String>)
    ensures
        match protected_key(plain@, os_view(*os)) {
            Ok(k) => r matches Ok(s) && s@ == k,
            Err(e) => r matches Err(m) && m@ == e,
        },
        r matches Ok(s) ==> written_key(plain@, os_view(*os), s@),
{
    match protect_plan(plain) {
        DpapiStep::Done(s) => Ok(s),
        DpapiStep::Call(_) => match os {
            Some(Ok(b)) => protect_finish(b.as_slice()),
            Some(Err(e)) => Err(string_of(&chars_of(e.as_str()))),
            None => Err(String::from_str("DPAPI was not asked to protect a key")),
        },
    }
}

/// Finish saving with the user-bound store: every key (the speech keys in
/// order, then the language-model key) as [`protected_key`] writes it, given
/// what the operating system returned for each key it was asked to protect
/// (`os_keys[i]` for the i-th speech key). The first failure is the error.
pub fn protect_keys_for_disk(
    settings: Settings,
    os_keys: Vec<Option<Result<Vec<u8>, String>>>,
    os_llm: Option<Result<Vec<u8>, String>>,
) -> (r: Result<Settings, String>)
    requires
        os_keys.len() == settings.stt.api_keys.len(),
    ensures
        match protected_keys(strings_view(settings.stt.api_keys@), os_views(os_keys@)) {
            Err(e) => r matches Err(m) && m@ == e,
            Ok(ks) => match protected_key(settings.llm.api_key@, os_view(os_llm)) {
                Err(e) => r matches Err(m) && m@ == e,
                Ok(l) => r matches Ok(out) && strings_view(out.stt.api_keys@) == ks && out.llm.api_key@ == l,
            },
        },
        r matches Ok(out) ==> {
            &&& out == (Settings {
                stt: crate::settings::SttSettings { api_keys: out.stt.api_keys, ..settings.stt },
                llm: crate::settings::LlmSettings { api_key: out.llm.api_key, ..settings.llm },
                ..settings
            })
            &&& out.stt.api_keys@.len() == settings.stt.api_keys@.len()
            &&& forall|i: int|
                0 <= i < out.stt.api_keys@.len() ==> written_key(
                    settings.stt.api_keys@[i]@,
                    os_view(os_keys@[i]),
                    #[trigger] out.stt.api_keys@[i]@,
                )
            &&& written_key(settings.llm.api_key@, os_view(os_llm), out.llm.api_key@)
        },
{
    let ghost keys = strings_view(settings.stt.api_keys@);
    let ghost osv = os_views(os_keys@);
    let mut out: Vec<String> = Vec::new();
    let mut i: usize = 0;
    assert(keys.take(0) =~= Seq::<Seq<char>>::empty());
    assert(strings_view(out@) =~= Seq::<Seq<char>>::empty());
    while i < os_keys.len()
        invariant
            os_keys.len() == settings.stt.api_keys.len(),
            keys == strings_view(settings.stt.api_keys@),
            osv == os_views(os_keys@),
            i <= os_keys.len(),
            out@.len() == i,
            protected_keys(keys.take(i as int), osv.take(i as int)) == Ok::<Seq<Seq<char>>, Seq<char>>(
                strings_view(out@),
            ),
            forall|j: int|
                0 <= j < i ==> written_key(
                    settings.stt.api_keys@[j]@,
                    os_view(os_keys@[j]),
                    #[trigger] out@[j]@,
                ),
        decreases os_keys.len() - i,
    {
        let r1 = protect_one(settings.stt.api_keys[i].as_str(), &os_keys[i]);
        proof {
            assert(keys.take(i + 1).drop_last() =~= keys.take(i as int));
            assert(osv.take(i + 1).take(i as int) =~= osv.take(i as int));
            assert(keys.take(i + 1).last() == settings.stt.api_keys@[i as int]@);
            assert(osv.take(i + 1)[i as int] == os_view(os_keys@[i as int]));
        }
        match r1 {
            Err(e) => {
                proof {
                    lemma_protected_keys_err(keys, osv, i as int + 1);
                }
                return Err(e);
            },
            Ok(k) => {
                let ghost before = strings_view(out@);
                out.push(k);
                assert(strings_view(out@) =~= before.push(out@[i as int]@));
            },
        }
        i += 1;
    }
    assert(keys.take(os_keys.len() as int) =~= keys);
    assert(osv.take(os_keys.len() as int) =~= osv);
    let l = match protect_one(settings.llm.api_key.as_str(), &os_llm) {
        Err(e) => {
            return Err(e);
        },
        Ok(l) => l,
    };
    let mut s = settings;
    s.stt.api_keys = out;
    s.llm.api_key = l;
    Ok(s)
}

proof fn lemma_protected_keys_err(keys: Seq<Seq<char>>, os: Seq<Option<Result<Seq<u8>, Seq<char>>>>, k: int)
    requires
        0 <= k <= keys.len(),
        keys.len() == os.len(),
        protected_keys(keys.take(k), os.take(k)) is Err,
    ensures
        protected_keys(keys, os) == protected_keys(keys.take(k), os.take(k)),
    decreases keys.len() - k,
{
    if k < keys.len() {
        assert(keys.take(k + 1).drop_last() =~= keys.take(k));
        assert(os.take(k + 1).take(k) =~= os.take(k));
        lemma_protected_keys_err(keys, os, k + 1);
    } else {
        assert(keys.take(k) =~= keys);
        assert(os.take(k) =~= os);
    }
}

} // verus!
