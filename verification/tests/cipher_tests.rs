use base64::engine::general_purpose::STANDARD as B64;
use base64::Engine;
use jitacart::cipher::{build_cipher, MultiKeyCipher, TokenCipher, TokenEncConfig};
use rand::RngCore;

fn fresh_key_b64() -> String {
    let mut k = [0u8; 32];
    rand::thread_rng().fill_bytes(&mut k);
    B64.encode(k)
}

fn cipher_with(keys: &[(&str, &str)], primary: &str) -> MultiKeyCipher {
    let map = keys.iter().map(|(k, v)| (k.to_string(), v.to_string())).collect();
    MultiKeyCipher::from_keys(map, primary.to_string()).unwrap()
}

const AAD_A: &[u8] = b"character-1";
const AAD_B: &[u8] = b"character-2";

#[test]
fn round_trip_single_key() {
    let v1 = fresh_key_b64();
    let c = cipher_with(&[("v1", &v1)], "v1");
    let pt = b"refresh-token-blob";
    let (ct, nonce, kid) = c.encrypt(pt, AAD_A).unwrap();
    assert_eq!(kid, "v1");
    assert_ne!(ct.as_slice(), pt);
    let recovered = c.decrypt(&ct, &nonce, &kid, AAD_A).unwrap();
    assert_eq!(recovered, pt);
}

#[test]
fn legacy_loader_uses_v1() {
    let c = MultiKeyCipher::from_legacy_b64(&fresh_key_b64()).unwrap();
    assert_eq!(c.primary_kid(), "v1");
    let (ct, nonce, kid) = c.encrypt(b"x", AAD_A).unwrap();
    assert_eq!(kid, "v1");
    assert_eq!(c.decrypt(&ct, &nonce, "v1", AAD_A).unwrap(), b"x");
}

#[test]
fn rotation_decrypt_old_encrypt_new() {
    let v1 = fresh_key_b64();
    let v2 = fresh_key_b64();
    let old = cipher_with(&[("v1", &v1)], "v1");
    let (ct, nonce, kid) = old.encrypt(b"secret", AAD_A).unwrap();
    assert_eq!(kid, "v1");
    let rotated = cipher_with(&[("v1", &v1), ("v2", &v2)], "v2");
    assert_eq!(rotated.primary_kid(), "v2");
    let recovered = rotated.decrypt(&ct, &nonce, "v1", AAD_A).unwrap();
    assert_eq!(recovered, b"secret");
    let (_, _, new_kid) = rotated.encrypt(b"fresh", AAD_A).unwrap();
    assert_eq!(new_kid, "v2");
}

#[test]
fn unknown_kid_is_error() {
    let v1 = fresh_key_b64();
    let c = cipher_with(&[("v1", &v1)], "v1");
    let (ct, nonce, _) = c.encrypt(b"x", AAD_A).unwrap();
    let err = c.decrypt(&ct, &nonce, "v99", AAD_A).err().unwrap().to_string();
    assert!(err.contains("unknown kid"), "got: {err}");
}

#[test]
fn primary_must_be_in_keys() {
    let v1 = fresh_key_b64();
    let map = vec![("v1".to_string(), v1)];
    let err = MultiKeyCipher::from_keys(map, "v2".to_string()).err().unwrap().to_string();
    assert!(err.contains("primary"));
}

#[test]
fn cipher_rejects_short_key() {
    let short = B64.encode([0u8; 16]);
    let map = vec![("v1".to_string(), short)];
    assert!(MultiKeyCipher::from_keys(map, "v1".to_string()).is_err());
}

#[test]
fn cipher_tamper_fails() {
    let v1 = fresh_key_b64();
    let c = cipher_with(&[("v1", &v1)], "v1");
    let (mut ct, nonce, kid) = c.encrypt(b"abc", AAD_A).unwrap();
    ct[0] ^= 1;
    assert!(c.decrypt(&ct, &nonce, &kid, AAD_A).is_err());
}

#[test]
fn aad_mismatch_fails() {
    let v1 = fresh_key_b64();
    let c = cipher_with(&[("v1", &v1)], "v1");
    let (ct, nonce, kid) = c.encrypt(b"refresh", AAD_A).unwrap();
    assert!(c.decrypt(&ct, &nonce, &kid, AAD_B).is_err());
    assert!(c.decrypt(&ct, &nonce, &kid, b"").is_err());
    assert_eq!(c.decrypt(&ct, &nonce, &kid, AAD_A).unwrap(), b"refresh");
}

#[test]
fn round_trip() {
    let cipher = TokenCipher::from_b64(&fresh_key_b64()).unwrap();
    let pt = b"refresh-token-blob";
    let (ct, nonce) = cipher.encrypt(pt).unwrap();
    assert_ne!(ct.as_slice(), pt);
    assert_eq!(nonce.len(), 12);
    let recovered = cipher.decrypt(&ct, &nonce).unwrap();
    assert_eq!(recovered, pt);
}

#[test]
fn crypto_tamper_fails() {
    let cipher = TokenCipher::from_b64(&fresh_key_b64()).unwrap();
    let (mut ct, nonce) = cipher.encrypt(b"abc").unwrap();
    ct[0] ^= 1;
    assert!(cipher.decrypt(&ct, &nonce).is_err());
}

#[test]
fn crypto_rejects_short_key() {
    let short = B64.encode([0u8; 16]);
    assert!(TokenCipher::from_b64(&short).is_err());
}

// Own tests: exact messages and the paths around the cipher.

#[test]
fn short_key_message_names_length() {
    let short = B64.encode([7u8; 16]);
    let err = TokenCipher::from_b64(&short).err().unwrap();
    assert_eq!(err, "TOKEN_ENC_KEY must decode to 32 bytes, got 16");
    assert_eq!(TokenCipher::from_b64("not base64!").err().unwrap(), "TOKEN_ENC_KEY is not valid base64");
}

#[test]
fn bad_nonce_length_is_reported() {
    let cipher = TokenCipher::from_b64(&fresh_key_b64()).unwrap();
    let (ct, _) = cipher.encrypt(b"abc").unwrap();
    assert_eq!(cipher.decrypt(&ct, &[0u8; 5]).err().unwrap(), "nonce must be 12 bytes, got 5");
}

#[test]
fn from_keys_error_order() {
    assert_eq!(
        MultiKeyCipher::from_keys(vec![], "v1".to_string()).err().unwrap(),
        "token_enc.keys must not be empty"
    );
    let err = MultiKeyCipher::from_keys(vec![("v1".to_string(), fresh_key_b64())], "v2".to_string())
        .err().unwrap();
    assert_eq!(err, "token_enc.primary = \"v2\" but no matching key was provided");
    let err = MultiKeyCipher::from_keys(vec![("v1".to_string(), "%%%".to_string())], "v1".to_string())
        .err().unwrap();
    assert_eq!(err, "token_enc key \"v1\" is not valid base64");
}

#[test]
fn build_cipher_prefers_multi_key_config() {
    let v1 = fresh_key_b64();
    let v2 = fresh_key_b64();
    let cfg = TokenEncConfig { primary: "v2".to_string(), keys: vec![("v1".to_string(), v1.clone()), ("v2".to_string(), v2)] };
    let c = build_cipher(Some(&cfg), Some(&v1)).unwrap();
    assert_eq!(c.primary_kid(), "v2");
    let legacy = build_cipher(None, Some(&v1)).unwrap();
    assert_eq!(legacy.primary_kid(), "v1");
    assert!(build_cipher(None, None).is_err());
}

#[test]
fn decrypt_under_other_key_fails() {
    let v1 = fresh_key_b64();
    let v2 = fresh_key_b64();
    let c = cipher_with(&[("v1", &v1), ("v2", &v2)], "v1");
    let (ct, nonce, _) = c.encrypt(b"refresh", AAD_A).unwrap();
    assert!(c.decrypt(&ct, &nonce, "v2", AAD_A).is_err());
    assert_eq!(c.decrypt(&ct, &nonce, "v1", AAD_A).unwrap(), b"refresh");
}
