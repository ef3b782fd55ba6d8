//! AES-256-GCM encryption of tokens at rest, with key rotation by key id.
//!
//! Every stored ciphertext carries the id of the key that encrypted it. A
//! cipher holds several keys and one primary: encryption always uses the
//! primary, decryption the key the row names. An unknown key id is an
//! error, never a silent fall-back, so a rotation mistake shows at once.
//!
//! The cryptography is `aes-gcm`'s and the key decoding `base64`'s; their
//! results are named below, not restated.

use aes_gcm::aead::{Aead, AeadCore, KeyInit};
use base64::Engine;
use vstd::prelude::*;

use crate::text::{dec_digits, push_u64, str_eq, trim, trimmed};

verus! {

/// The key id of a configuration with a single legacy key.
pub const LEGACY_KID: &'static str = "v1";

/// The longest message, and the longest associated data, AES-GCM accepts:
/// 2^36 bytes.
pub const AEAD_MAX_LEN: u64 = 0x10_0000_0000u64;

/// Named result of decoding standard base64 (`STANDARD.decode`).
pub uninterp spec fn base64_standard_decode(s: Seq<char>) -> Option<Seq<u8>>;

/// Named result of AES-256-GCM encryption (`Aead::encrypt`) of `msg` with
/// associated data `aad`.
pub uninterp spec fn aes256gcm_seal(key: Seq<u8>, nonce: Seq<u8>, msg: Seq<u8>, aad: Seq<u8>) -> Option<Seq<u8>>;

/// Named result of AES-256-GCM decryption (`Aead::decrypt`): `None` when
/// the tag does not verify.
pub uninterp spec fn aes256gcm_open(key: Seq<u8>, nonce: Seq<u8>, ct: Seq<u8>, aad: Seq<u8>) -> Option<Seq<u8>>;

/// Named result of `{:?}` on a string (quoted, escaped).
pub uninterp spec fn debug_quoted(s: Seq<char>) -> Seq<char>;

/// `base64::engine::general_purpose::STANDARD.decode`.
#[verifier::external_body]
fn b64_decode(s: &str) -> (r: Option<Vec<u8>>)
    ensures
        match r {
            Some(v) => base64_standard_decode(s@) == Some(v@),
            None => base64_standard_decode(s@) is None,
        },
{
    match base64::engine::general_purpose::STANDARD.decode(s) {
        Ok(v) => Some(v),
        Err(_) => None,
    }
}

/// `Aes256Gcm::generate_nonce(&mut OsRng)`: twelve random bytes.
#[verifier::external_body]
fn fresh_nonce() -> (r: Vec<u8>)
    ensures
        r@.len() == 12,
{
    aes_gcm::Aes256Gcm::generate_nonce(&mut aes_gcm::aead::OsRng).to_vec()
}

/// `Aes256Gcm::encrypt` with a 32-byte key and a 12-byte nonce. What it
/// returns opens again, under the same key, nonce and associated data, to
/// the message: the defining property of an AEAD. It fails only on a
/// message or associated data longer than 2^36 bytes (`P_MAX`, `A_MAX`),
/// and the ciphertext is the message's length plus the 16-byte tag.
#[verifier::external_body]
fn aes_seal(key: &[u8], nonce: &[u8], msg: &[u8], aad: &[u8]) -> (r: Option<Vec<u8>>)
    requires
        key@.len() == 32,
        nonce@.len() == 12,
    ensures
        r is Some <==> (msg@.len() <= AEAD_MAX_LEN && aad@.len() <= AEAD_MAX_LEN),
        r matches Some(ct) ==> ct@.len() == msg@.len() + 16,
        match r {
            Some(ct) => aes256gcm_seal(key@, nonce@, msg@, aad@) == Some(ct@) && aes256gcm_open(
                key@,
                nonce@,
                ct@,
                aad@,
            ) == Some(msg@),
            None => aes256gcm_seal(key@, nonce@, msg@, aad@) is None,
        },
{
    let cipher = aes_gcm::Aes256Gcm::new(aes_gcm::Key::<aes_gcm::Aes256Gcm>::from_slice(key));
    let payload = aes_gcm::aead::Payload { msg, aad };
    match cipher.encrypt(aes_gcm::Nonce::from_slice(nonce), payload) {
        Ok(ct) => Some(ct),
        Err(_) => None,
    }
}

/// `Aes256Gcm::decrypt` with a 32-byte key and a 12-byte nonce.
#[verifier::external_body]
fn aes_open(key: &[u8], nonce: &[u8], ct: &[u8], aad: &[u8]) -> (r: Option<Vec<u8>>)
    requires
        key@.len() == 32,
        nonce@.len() == 12,
    ensures
        match r {
            Some(pt) => aes256gcm_open(key@, nonce@, ct@, aad@) == Some(pt@),
            None => aes256gcm_open(key@, nonce@, ct@, aad@) is None,
        },
{
    let cipher = aes_gcm::Aes256Gcm::new(aes_gcm::Key::<aes_gcm::Aes256Gcm>::from_slice(key));
    let payload = aes_gcm::aead::Payload { msg: ct, aad };
    match cipher.decrypt(aes_gcm::Nonce::from_slice(nonce), payload) {
        Ok(pt) => Some(pt),
        Err(_) => None,
    }
}

/// `format!("{:?}", s)`.
#[verifier::external_body]
fn debug_text(s: &str) -> (r: String)
    ensures
        r@ == debug_quoted(s@),
{
    format!("{:?}", s)
}

/// The text `aes-gcm`'s error displays as; it carries no detail.
pub open spec fn aead_error_text() -> Seq<char> {
    "aead::Error"@
}

/// `prefix` followed by the AEAD error's text.
fn aead_failure(prefix: &str) -> (r: String)
    ensures
        r@ == prefix@ + aead_error_text(),
{
    let mut m = String::from_str(prefix);
    m.append("aead::Error");
    m
}

/// Multi-key configuration: key id to base64 key, and the primary key id.
#[derive(Debug)]
pub struct TokenEncConfig {
    pub primary: String,
    /// The keys by id; an id occurs once.
    pub keys: Vec<(String, String)>,
}

/// Keys by id, and the id of the key that encrypts.
pub struct MultiKeyCipher {
    keys: Vec<(String, Vec<u8>)>,
    primary: String,
}

pub open spec fn entry_views(keys: Seq<(String, Vec<u8>)>) -> Seq<(Seq<char>, Seq<u8>)> {
    keys.map_values(|e: (String, Vec<u8>)| (e.0@, e.1@))
}

pub open spec fn config_views(keys: Seq<(String, String)>) -> Seq<(Seq<char>, Seq<char>)> {
    keys.map_values(|e: (String, String)| (e.0@, e.1@))
}

/// No id occurs twice.
pub open spec fn distinct_ids<K>(keys: Seq<(Seq<char>, K)>) -> bool {
    forall|i: int, j: int| 0 <= i < j < keys.len() ==> keys[i].0 != keys[j].0
}

/// The key stored under `kid`.
pub open spec fn key_of(keys: Seq<(Seq<char>, Seq<u8>)>, kid: Seq<char>) -> Option<Seq<u8>> {
    if exists|i: int| 0 <= i < keys.len() && keys[i].0 == kid {
        Some(keys[choose|i: int| 0 <= i < keys.len() && keys[i].0 == kid].1)
    } else {
        None
    }
}

impl MultiKeyCipher {
    pub closed spec fn entries(&self) -> Seq<(Seq<char>, Seq<u8>)> {
        entry_views(self.keys@)
    }

    pub closed spec fn primary_id(&self) -> Seq<char> {
        self.primary@
    }

    /// Ids are distinct, every key has 32 bytes, and the primary is one of
    /// the ids.
    pub open spec fn wf(&self) -> bool {
        &&& distinct_ids(self.entries())
        &&& forall|i: int| 0 <= i < self.entries().len() ==> (#[trigger] self.entries()[i]).1.len()
            == 32
        &&& key_of(self.entries(), self.primary_id()) is Some
    }
}

/// The check of one configured key: a non-empty id and base64 text (after
/// trimming) that decodes to exactly 32 bytes.
pub open spec fn key_check(kid: Seq<char>, b64: Seq<char>) -> Result<Seq<u8>, Seq<char>> {
    if kid.len() == 0 {
        Err("token_enc key id must not be empty"@)
    } else {
        match base64_standard_decode(trim(b64)) {
            None => Err("token_enc key "@ + debug_quoted(kid) + " is not valid base64"@),
            Some(raw) => if raw.len() != 32 {
                Err(
                    "token_enc key "@ + debug_quoted(kid) + " must decode to 32 bytes, got "@
                        + dec_digits(raw.len()),
                )
            } else {
                Ok(raw)
            },
        }
    }
}

/// The first configured key that fails its check, in the given order.
pub open spec fn first_key_error(keys: Seq<(Seq<char>, Seq<char>)>) -> Option<Seq<char>>
    decreases keys.len(),
{
    if keys.len() == 0 {
        None
    } else {
        match first_key_error(keys.drop_last()) {
            Some(e) => Some(e),
            None => match key_check(keys.last().0, keys.last().1) {
                Err(e) => Some(e),
                Ok(_) => None,
            },
        }
    }
}

pub open spec fn has_id<K>(keys: Seq<(Seq<char>, K)>, kid: Seq<char>) -> bool {
    exists|i: int| 0 <= i < keys.len() && keys[i].0 == kid
}

/// Building a cipher from configured keys: at least one key, the primary
/// among them, and every key valid.
pub open spec fn from_keys_check(keys: Seq<(Seq<char>, Seq<char>)>, primary: Seq<char>) -> Result<
    (),
    Seq<char>,
> {
    if keys.len() == 0 {
        Err("token_enc.keys must not be empty"@)
    } else if !has_id(keys, primary) {
        Err("token_enc.primary = "@ + debug_quoted(primary) + " but no matching key was provided"@)
    } else {
        match first_key_error(keys) {
            Some(e) => Err(e),
            None => Ok(()),
        }
    }
}

/// The decrypt rules: a 12-byte nonce, a known key id, and a tag that
/// verifies under that key and the associated data.
pub open spec fn decrypt_spec(
    keys: Seq<(Seq<char>, Seq<u8>)>,
    ct: Seq<u8>,
    nonce: Seq<u8>,
    kid: Seq<char>,
    aad: Seq<u8>,
) -> Result<Seq<u8>, Seq<char>> {
    if nonce.len() != 12 {
        Err("nonce must be 12 bytes, got "@ + dec_digits(nonce.len()))
    } else {
        match key_of(keys, kid) {
            None => Err(
                "token row encrypted with unknown kid "@ + debug_quoted(kid)
                    + "; check token_enc config"@,
            ),
            Some(key) => match aes256gcm_open(key, nonce, ct, aad) {
                Some(pt) => Ok(pt),
                None => Err(
                    "AES-GCM decrypt failed for kid "@ + debug_quoted(kid) + ": "@
                        + aead_error_text(),
                ),
            },
        }
    }
}

pub open spec fn bytes_result_view(r: Result<Vec<u8>, String>) -> Result<Seq<u8>, Seq<char>> {
    match r {
        Ok(v) => Ok(v@),
        Err(e) => Err(e@),
    }
}

/// The index of `kid` among the keys, if present.
fn find_key(keys: &Vec<(String, Vec<u8>)>, kid: &str) -> (r: Option<usize>)
    requires
        distinct_ids(entry_views(keys@)),
    ensures
        match r {
            Some(i) => i < keys@.len() && keys@[i as int].0@ == kid@ && key_of(
                entry_views(keys@),
                kid@,
            ) == Some(keys@[i as int].1@),
            None => key_of(entry_views(keys@), kid@) is None,
        },
{
    let ghost es = entry_views(keys@);
    let mut i: usize = 0;
    while i < keys.len()
        invariant
            i <= keys@.len(),
            es == entry_views(keys@),
            distinct_ids(es),
            forall|j: int| 0 <= j < i ==> es[j].0 != kid@,
        decreases keys@.len() - i,
    {
        if str_eq(keys[i].0.as_str(), kid) {
            proof {
                assert(es[i as int].0 == kid@);
                let c = choose|k: int| 0 <= k < es.len() && es[k].0 == kid@;
                if c != i {
                    assert(es[c].0 == es[i as int].0);
                }
            }
            return Some(i);
        }
        i = i + 1;
    }
    None
}

/// Builds a cipher from `(id, base64 key)` pairs and the primary id. The
/// checks run in order: no keys, primary missing, then each key in the
/// order given (empty id, bad base64, wrong length).
pub fn from_keys_impl(keys_b64: &Vec<(String, String)>, primary: String) -> (r: Result<
    MultiKeyCipher,
    String,
>)
    requires
        distinct_ids(config_views(keys_b64@)),
    ensures
        match r {
            Ok(c) => {
                &&& from_keys_check(config_views(keys_b64@), primary@) is Ok
                &&& c.wf()
                &&& c.primary_id() == primary@
                &&& c.entries().len() == keys_b64@.len()
                &&& forall|i: int|
                    0 <= i < keys_b64@.len() ==> (#[trigger] c.entries()[i]).0 == keys_b64@[i].0@
                        && key_check(keys_b64@[i].0@, keys_b64@[i].1@) == Ok::<
                        Seq<u8>,
                        Seq<char>,
                    >(c.entries()[i].1)
            },
            Err(e) => from_keys_check(config_views(keys_b64@), primary@) == Err::<(), Seq<char>>(
                e@,
            ),
        },
{
    let ghost cfg = config_views(keys_b64@);
    if keys_b64.len() == 0 {
        return Err(String::from_str("token_enc.keys must not be empty"));
    }
    let mut found = false;
    let mut p: usize = 0;
    while p < keys_b64.len()
        invariant
            p <= keys_b64@.len(),
            cfg == config_views(keys_b64@),
            found == (exists|j: int| 0 <= j < p && cfg[j].0 == primary@),
        decreases keys_b64@.len() - p,
    {
        if str_eq(keys_b64[p].0.as_str(), primary.as_str()) {
            assert(cfg[p as int].0 == primary@);
            found = true;
        }
        p = p + 1;
    }
    if !found {
        let mut m = String::from_str("token_enc.primary = ");
        let q = debug_text(primary.as_str());
        m.append(q.as_str());
        m.append(" but no matching key was provided");
        return Err(m);
    }
    let mut keys: Vec<(String, Vec<u8>)> = Vec::new();
    let mut i: usize = 0;
    while i < keys_b64.len()
        invariant
            i <= keys_b64@.len(),
            cfg == config_views(keys_b64@),
            distinct_ids(cfg),
            has_id(cfg, primary@),
            keys@.len() == i,
            first_key_error(cfg.take(i as int)) is None,
            forall|k: int|
                0 <= k < i ==> (#[trigger] entry_views(keys@)[k]).0 == cfg[k].0 && key_check(
                    cfg[k].0,
                    cfg[k].1,
                ) == Ok::<Seq<u8>, Seq<char>>(entry_views(keys@)[k].1),
        decreases keys_b64@.len() - i,
    {
        assert(cfg.take(i + 1).drop_last() =~= cfg.take(i as int));
        let kid = &keys_b64[i].0;
        let b64 = &keys_b64[i].1;
        if kid.as_str().is_empty() {
            proof {
                lemma_first_key_error_some_extends(cfg, i as int + 1);
            }
            return Err(String::from_str("token_enc key id must not be empty"));
        }
        let t = trimmed(b64.as_str());
        match b64_decode(t.as_str()) {
            None => {
                let mut m = String::from_str("token_enc key ");
                let q = debug_text(kid.as_str());
                m.append(q.as_str());
                m.append(" is not valid base64");
                proof {
                    lemma_first_key_error_some_extends(cfg, i as int + 1);
                }
                return Err(m);
            },
            Some(raw) => {
                if raw.len() != 32 {
                    let mut m = String::from_str("token_enc key ");
                    let q = debug_text(kid.as_str());
                    m.append(q.as_str());
                    m.append(" must decode to 32 bytes, got ");
                    push_u64(&mut m, raw.len() as u64);
                    proof {
                        lemma_first_key_error_some_extends(cfg, i as int + 1);
                    }
                    return Err(m);
                }
                let ghost before = entry_views(keys@);
                keys.push((kid.clone(), raw));
                assert(entry_views(keys@) =~= before.push((cfg[i as int].0, raw@)));
            },
        }
        i = i + 1;
    }
    assert(cfg.take(cfg.len() as int) =~= cfg);
    let c = MultiKeyCipher { keys, primary };
    proof {
        let es = entry_views(c.keys@);
        assert forall|a: int, b: int| 0 <= a < b < es.len() implies es[a].0 != es[b].0 by {
            assert(es[a].0 == cfg[a].0 && es[b].0 == cfg[b].0);
        }
        let j = choose|j: int| 0 <= j < cfg.len() && cfg[j].0 == primary@;
        assert(es[j].0 == primary@);
        assert forall|k: int| 0 <= k < es.len() implies (#[trigger] es[k]).1.len() == 32 by {
            assert(key_check(cfg[k].0, cfg[k].1) == Ok::<Seq<u8>, Seq<char>>(es[k].1));
        }
    }
    Ok(c)
}

/// Once some prefix holds a bad key, the first error of the whole list is
/// there.
proof fn lemma_first_key_error_some_extends(keys: Seq<(Seq<char>, Seq<char>)>, n: int)
    requires
        0 <= n <= keys.len(),
        first_key_error(keys.take(n)) is Some,
    ensures
        first_key_error(keys) == first_key_error(keys.take(n)),
    decreases keys.len() - n,
{
    if n < keys.len() {
        assert(keys.take(n + 1).drop_last() =~= keys.take(n));
        lemma_first_key_error_some_extends(keys, n + 1);
    } else {
        assert(keys.take(n) =~= keys);
    }
}

impl MultiKeyCipher {
    /// Builds a cipher from `(id, base64 key)` pairs and the primary id.
    pub fn from_keys(keys_b64: Vec<(String, String)>, primary: String) -> (r: Result<
        MultiKeyCipher,
        String,
    >)
        requires
            distinct_ids(config_views(keys_b64@)),
        ensures
            match r {
                Ok(c) => {
                    &&& from_keys_check(config_views(keys_b64@), primary@) is Ok
                    &&& c.wf()
                    &&& c.primary_id() == primary@
                    &&& c.entries().len() == keys_b64@.len()
                    &&& forall|i: int|
                        0 <= i < keys_b64@.len() ==> (#[trigger] c.entries()[i]).0
                            == keys_b64@[i].0@ && key_check(keys_b64@[i].0@, keys_b64@[i].1@)
                            == Ok::<Seq<u8>, Seq<char>>(c.entries()[i].1)
                },
                Err(e) => from_keys_check(config_views(keys_b64@), primary@) == Err::<
                    (),
                    Seq<char>,
                >(e@),
            },
    {
        from_keys_impl(&keys_b64, primary)
    }

    /// A legacy single key, loaded under id `v1` and made primary.
    pub fn from_legacy_b64(key_b64: &str) -> (r: Result<MultiKeyCipher, String>)
        ensures
            match r {
                Ok(c) => {
                    &&& c.wf()
                    &&& c.primary_id() == "v1"@
                    &&& c.entries().len() == 1
                    &&& c.entries()[0].0 == "v1"@
                    &&& key_check("v1"@, key_b64@) == Ok::<Seq<u8>, Seq<char>>(c.entries()[0].1)
                },
                Err(e) => from_keys_check(seq![("v1"@, key_b64@)], "v1"@) == Err::<
                    (),
                    Seq<char>,
                >(e@),
            },
    {
        let mut keys: Vec<(String, String)> = Vec::new();
        keys.push((String::from_str(LEGACY_KID), String::from_str(key_b64)));
        proof {
            reveal_strlit("v1");
            assert(config_views(keys@) =~= seq![("v1"@, key_b64@)]);
        }
        Self::from_keys(keys, String::from_str(LEGACY_KID))
    }

    /// The id new ciphertexts are encrypted under.
    pub fn primary_kid(&self) -> (r: &str)
        ensures
            r@ == self.primary_id(),
    {
        self.primary.as_str()
    }

    /// Whether a key with this id is configured.
    pub fn knows(&self, kid: &str) -> (r: bool)
        requires
            self.wf(),
        ensures
            r == (key_of(self.entries(), kid@) is Some),
    {
        find_key(&self.keys, kid).is_some()
    }

    /// Encrypts under the primary key with a fresh nonce; `aad` is bound
    /// into the tag, so the row cannot be moved to another scope. Returns
    /// `(ciphertext, nonce, key id)`.
    pub fn encrypt(&self, plaintext: &[u8], aad: &[u8]) -> (r: Result<
        (Vec<u8>, Vec<u8>, String),
        String,
    >)
        requires
            self.wf(),
        ensures
            match r {
                Ok((ct, nonce, kid)) => {
                    &&& kid@ == self.primary_id()
                    &&& nonce@.len() == 12
                    &&& key_of(self.entries(), kid@) matches Some(key) && aes256gcm_seal(
                        key,
                        nonce@,
                        plaintext@,
                        aad@,
                    ) == Some(ct@) && aes256gcm_open(key, nonce@, ct@, aad@) == Some(plaintext@)
                    &&& ct@.len() == plaintext@.len() + 16
                },
                Err(e) => e@ == "AES-GCM encrypt failed: "@ + aead_error_text(),
            },
            r is Ok <==> (plaintext@.len() <= AEAD_MAX_LEN && aad@.len() <= AEAD_MAX_LEN),
    {
        let i = match find_key(&self.keys, self.primary.as_str()) {
            Some(i) => i,
            None => {
                return Err(aead_failure("AES-GCM encrypt failed: "));
            },
        };
        proof {
            assert(entry_views(self.keys@)[i as int].1.len() == 32);
        }
        let nonce = fresh_nonce();
        match aes_seal(self.keys[i].1.as_slice(), nonce.as_slice(), plaintext, aad) {
            Some(ct) => Ok((ct, nonce, self.primary.clone())),
            None => Err(aead_failure("AES-GCM encrypt failed: ")),
        }
    }

    /// Decrypts with the key named by `kid`; an unknown id or a tag that
    /// does not verify (tampering, other associated data) is an error.
    pub fn decrypt(&self, ciphertext: &[u8], nonce: &[u8], kid: &str, aad: &[u8]) -> (r: Result<
        Vec<u8>,
        String,
    >)
        requires
            self.wf(),
        ensures
            bytes_result_view(r) == decrypt_spec(self.entries(), ciphertext@, nonce@, kid@, aad@),
    {
        if nonce.len() != 12 {
            let mut m = String::from_str("nonce must be 12 bytes, got ");
            push_u64(&mut m, nonce.len() as u64);
            return Err(m);
        }
        let i = match find_key(&self.keys, kid) {
            Some(i) => i,
            None => {
                let mut m = String::from_str("token row encrypted with unknown kid ");
                let q = debug_text(kid);
                m.append(q.as_str());
                m.append("; check token_enc config");
                return Err(m);
            },
        };
        proof {
            assert(entry_views(self.keys@)[i as int].1.len() == 32);
        }
        match aes_open(self.keys[i].1.as_slice(), nonce, ciphertext, aad) {
            Some(pt) => Ok(pt),
            None => {
                let mut m = String::from_str("AES-GCM decrypt failed for kid ");
                let q = debug_text(kid);
                m.append(q.as_str());
                m.append(": ");
                m.append("aead::Error");
                Err(m)
            },
        }
    }
}

/// What [`MultiKeyCipher::encrypt`] promises of a ciphertext under `kid`.
pub open spec fn sealed_under(
    keys: Seq<(Seq<char>, Seq<u8>)>,
    kid: Seq<char>,
    nonce: Seq<u8>,
    ct: Seq<u8>,
    pt: Seq<u8>,
    aad: Seq<u8>,
) -> bool {
    &&& nonce.len() == 12
    &&& key_of(keys, kid) matches Some(key) && aes256gcm_seal(key, nonce, pt, aad) == Some(ct)
        && aes256gcm_open(key, nonce, ct, aad) == Some(pt)
    &&& ct.len() == pt.len() + 16
}

/// Decryption inverts encryption: what was encrypted under a key id opens,
/// with the same nonce and associated data, to the plaintext; and the
/// ciphertext is never the plaintext itself (it carries the tag).
pub proof fn lemma_decrypt_inverts_encrypt(
    keys: Seq<(Seq<char>, Seq<u8>)>,
    kid: Seq<char>,
    nonce: Seq<u8>,
    ct: Seq<u8>,
    pt: Seq<u8>,
    aad: Seq<u8>,
)
    requires
        sealed_under(keys, kid, nonce, ct, pt, aad),
    ensures
        decrypt_spec(keys, ct, nonce, kid, aad) == Ok::<Seq<u8>, Seq<char>>(pt),
        ct != pt,
{
}

/// Rotation: decryption depends only on the key stored under the row's id,
/// so adding keys or changing the primary leaves old rows readable.
pub proof fn lemma_decrypt_depends_on_named_key(
    old_keys: Seq<(Seq<char>, Seq<u8>)>,
    new_keys: Seq<(Seq<char>, Seq<u8>)>,
    kid: Seq<char>,
    ct: Seq<u8>,
    nonce: Seq<u8>,
    aad: Seq<u8>,
)
    requires
        key_of(old_keys, kid) == key_of(new_keys, kid),
    ensures
        decrypt_spec(old_keys, ct, nonce, kid, aad) == decrypt_spec(new_keys, ct, nonce, kid, aad),
{
}

/// Builds the cipher from whichever configuration is present, the
/// multi-key one first; with neither there is no key and no start.
pub fn build_cipher(token_enc: Option<&TokenEncConfig>, token_enc_key: Option<&str>) -> (r: Result<
    MultiKeyCipher,
    String,
>)
    requires
        token_enc matches Some(t) ==> distinct_ids(config_views(t.keys@)),
    ensures
        match (token_enc, token_enc_key) {
            (Some(t), _) => match r {
                Ok(c) => from_keys_check(config_views(t.keys@), t.primary@) is Ok && c.wf()
                    && c.primary_id() == t.primary@,
                Err(e) => from_keys_check(config_views(t.keys@), t.primary@) == Err::<
                    (),
                    Seq<char>,
                >(e@),
            },
            (None, Some(k)) => match r {
                Ok(c) => c.wf() && c.primary_id() == "v1"@,
                Err(e) => from_keys_check(seq![("v1"@, k@)], "v1"@) == Err::<(), Seq<char>>(e@),
            },
            (None, None) => r matches Err(e) && e@
                == "neither [token_enc] nor token_enc_key is set; refusing to start without an at-rest encryption key"@,
        },
{
    match (token_enc, token_enc_key) {
        (Some(t), _) => from_keys_impl(&t.keys, t.primary.clone()),
        (None, Some(k)) => MultiKeyCipher::from_legacy_b64(k),
        (None, None) => Err(
            String::from_str(
                "neither [token_enc] nor token_enc_key is set; refusing to start without an at-rest encryption key",
            ),
        ),
    }
}

/// The single-key cipher of the API's own token storage.
pub struct TokenCipher {
    key: Vec<u8>,
}

impl TokenCipher {
    pub closed spec fn key(&self) -> Seq<u8> {
        self.key@
    }

    pub open spec fn wf(&self) -> bool {
        self.key().len() == 32
    }

    /// Builds the cipher from base64 text (trimmed) of exactly 32 bytes.
    pub fn from_b64(key_b64: &str) -> (r: Result<TokenCipher, String>)
        ensures
            match base64_standard_decode(trim(key_b64@)) {
                None => r matches Err(e) && e@ == "TOKEN_ENC_KEY is not valid base64"@,
                Some(raw) => if raw.len() != 32 {
                    r matches Err(e) && e@ == "TOKEN_ENC_KEY must decode to 32 bytes, got "@
                        + dec_digits(raw.len())
                } else {
                    r matches Ok(c) && c.wf() && c.key() == raw
                },
            },
    {
        let t = trimmed(key_b64);
        match b64_decode(t.as_str()) {
            None => Err(String::from_str("TOKEN_ENC_KEY is not valid base64")),
            Some(raw) => {
                if raw.len() != 32 {
                    let mut m = String::from_str("TOKEN_ENC_KEY must decode to 32 bytes, got ");
                    push_u64(&mut m, raw.len() as u64);
                    Err(m)
                } else {
                    Ok(TokenCipher { key: raw })
                }
            },
        }
    }

    /// Encrypts with a fresh nonce and no associated data; returns
    /// `(ciphertext, nonce)`.
    pub fn encrypt(&self, plaintext: &[u8]) -> (r: Result<(Vec<u8>, Vec<u8>), String>)
        requires
            self.wf(),
        ensures
            match r {
                Ok((ct, nonce)) => nonce@.len() == 12 && aes256gcm_seal(
                    self.key(),
                    nonce@,
                    plaintext@,
                    Seq::<u8>::empty(),
                ) == Some(ct@) && aes256gcm_open(self.key(), nonce@, ct@, Seq::<u8>::empty())
                    == Some(plaintext@) && ct@.len() == plaintext@.len() + 16,
                Err(e) => e@ == "AES-GCM encrypt failed: "@ + aead_error_text(),
            },
            r is Ok <==> plaintext@.len() <= AEAD_MAX_LEN,
    {
        let nonce = fresh_nonce();
        let aad: Vec<u8> = Vec::new();
        match aes_seal(self.key.as_slice(), nonce.as_slice(), plaintext, aad.as_slice()) {
            Some(ct) => {
                assert(aad@ =~= Seq::<u8>::empty());
                Ok((ct, nonce))
            },
            None => Err(aead_failure("AES-GCM encrypt failed: ")),
        }
    }

    /// Decrypts a stored ciphertext with its nonce.
    pub fn decrypt(&self, ciphertext: &[u8], nonce: &[u8]) -> (r: Result<Vec<u8>, String>)
        requires
            self.wf(),
        ensures
            bytes_result_view(r) == (if nonce@.len() != 12 {
                Err("nonce must be 12 bytes, got "@ + dec_digits(nonce@.len()))
            } else {
                match aes256gcm_open(self.key(), nonce@, ciphertext@, Seq::<u8>::empty()) {
                    Some(pt) => Ok(pt),
                    None => Err("AES-GCM decrypt failed: "@ + aead_error_text()),
                }
            }),
    {
        if nonce.len() != 12 {
            let mut m = String::from_str("nonce must be 12 bytes, got ");
            push_u64(&mut m, nonce.len() as u64);
            return Err(m);
        }
        let aad: Vec<u8> = Vec::new();
        assert(aad@ =~= Seq::<u8>::empty());
        match aes_open(self.key.as_slice(), nonce, ciphertext, aad.as_slice()) {
            Some(pt) => Ok(pt),
            None => Err(aead_failure("AES-GCM decrypt failed: ")),
        }
    }
}

} // verus!
