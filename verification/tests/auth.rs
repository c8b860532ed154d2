use contract_account::auth::{
    AccountAuthenticator, FullAuthenticator, MinimalAuthenticator, MinimalSignature, Signature,
};
use contract_account::auth_data::validate;
use contract_account::base64_url::encode;
use contract_account::errors::Error;
use contract_account::store::{CredentialStore, DataKey, WEEK_OF_LEDGERS};
use p256::ecdsa::signature::hazmat::PrehashSigner;
use p256::ecdsa::SigningKey;
use sha2::Digest;

const MAX_EXPIRY: u64 = 4 * WEEK_OF_LEDGERS;
const INITIAL_EXPIRY: u64 = 5;

fn test_key() -> SigningKey {
    SigningKey::from_slice(&[7u8; 32]).unwrap()
}

fn public_key_bytes(sk: &SigningKey) -> Vec<u8> {
    sk.verifying_key().to_sec1_point(false).as_bytes().to_vec()
}

fn sha256(data: &[u8]) -> Vec<u8> {
    sha2::Sha256::digest(data).to_vec()
}

fn sign_bundle(sk: &SigningKey, authenticator_data: &[u8], client_data_json: &[u8]) -> Vec<u8> {
    let mut message = authenticator_data.to_vec();
    message.extend_from_slice(&sha256(client_data_json));
    let digest = sha256(&message);
    let sig: p256::ecdsa::Signature = sk.sign_prehash(&digest).unwrap();
    sig.to_bytes().to_vec()
}

fn sign_payload(sk: &SigningKey, payload: &[u8]) -> Vec<u8> {
    let sig: p256::ecdsa::Signature = sk.sign_prehash(payload).unwrap();
    sig.to_bytes().to_vec()
}

fn challenge_text(payload: &[u8; 32]) -> String {
    let mut dst: Vec<u8> = vec![0u8; 43];
    encode(&mut dst, &payload.to_vec()).unwrap();
    String::from_utf8(dst).unwrap()
}

fn authenticator_data(flags: u8) -> Vec<u8> {
    let mut ad = vec![0u8; 32]; // relying-party-ID hash, not checked by this core
    ad.push(flags);
    ad.extend_from_slice(&[0, 0, 0, 1]); // signature counter
    ad
}

fn store_with(id: &[u8], pk: Vec<u8>) -> CredentialStore {
    let mut store = CredentialStore::new(INITIAL_EXPIRY, MAX_EXPIRY);
    store.register(DataKey::CredentialId(id.to_vec()), pk);
    store
}

fn valid_bundle(sk: &SigningKey, payload: &[u8; 32]) -> Signature {
    let ad = authenticator_data(0x05);
    let cdj = format!(
        r#"{{"type":"webauthn.get","challenge":"{}"}}"#,
        challenge_text(payload)
    )
    .into_bytes();
    let sig = sign_bundle(sk, &ad, &cdj);
    Signature {
        authenticator_data: ad,
        client_data_json: cdj,
        credential_id: b"cred1".to_vec(),
        signature: sig,
    }
}

#[test]
fn full_valid_assertion_succeeds_end_to_end() {
    let sk = test_key();
    let payload = [42u8; 32];
    let mut store = store_with(b"cred1", public_key_bytes(&sk));
    let bundle = valid_bundle(&sk, &payload);
    let r = FullAuthenticator.check_auth(&mut store, &payload.to_vec(), &bundle);
    assert_eq!(r, Ok(()));
    // exactly one renewal happened, to the maximum window
    assert_eq!(store.current_expiry(), MAX_EXPIRY);
    // a second identical request also succeeds and renews idempotently
    let r2 = FullAuthenticator.check_auth(&mut store, &payload.to_vec(), &bundle);
    assert_eq!(r2, Ok(()));
    assert_eq!(store.current_expiry(), MAX_EXPIRY);
}

#[test]
fn full_unknown_credential_is_signer_not_found() {
    let sk = test_key();
    let payload = [42u8; 32];
    let mut store = store_with(b"cred1", public_key_bytes(&sk));
    let mut bundle = valid_bundle(&sk, &payload);
    bundle.credential_id = b"cred2".to_vec();
    let r = FullAuthenticator.check_auth(&mut store, &payload.to_vec(), &bundle);
    assert_eq!(r, Err(Error::SignerNotFound));
}

#[test]
fn full_tampered_signature_is_invalid_signature() {
    let sk = test_key();
    let payload = [42u8; 32];
    let mut store = store_with(b"cred1", public_key_bytes(&sk));
    let mut bundle = valid_bundle(&sk, &payload);
    bundle.signature[63] ^= 0x01;
    let r = FullAuthenticator.check_auth(&mut store, &payload.to_vec(), &bundle);
    assert_eq!(r, Err(Error::InvalidSignature));
}

#[test]
fn full_wrong_type_is_invalid_type() {
    let sk = test_key();
    let payload = [42u8; 32];
    let mut store = store_with(b"cred1", public_key_bytes(&sk));
    let ad = authenticator_data(0x05);
    let cdj = format!(
        r#"{{"type":"webauthn.create","challenge":"{}"}}"#,
        challenge_text(&payload)
    )
    .into_bytes();
    let sig = sign_bundle(&sk, &ad, &cdj);
    let bundle = Signature {
        authenticator_data: ad,
        client_data_json: cdj,
        credential_id: b"cred1".to_vec(),
        signature: sig,
    };
    let r = FullAuthenticator.check_auth(&mut store, &payload.to_vec(), &bundle);
    assert_eq!(r, Err(Error::ClientDataInvalidType));
}

#[test]
fn full_wrong_challenge_is_invalid_challenge() {
    let sk = test_key();
    let payload = [42u8; 32];
    let other = [43u8; 32];
    let mut store = store_with(b"cred1", public_key_bytes(&sk));
    let ad = authenticator_data(0x05);
    let cdj = format!(
        r#"{{"type":"webauthn.get","challenge":"{}"}}"#,
        challenge_text(&other)
    )
    .into_bytes();
    let sig = sign_bundle(&sk, &ad, &cdj);
    let bundle = Signature {
        authenticator_data: ad,
        client_data_json: cdj,
        credential_id: b"cred1".to_vec(),
        signature: sig,
    };
    let r = FullAuthenticator.check_auth(&mut store, &payload.to_vec(), &bundle);
    assert_eq!(r, Err(Error::ClientDataInvalidChallenge));
}

#[test]
fn full_missing_presence_bit_is_user_not_present() {
    let sk = test_key();
    let payload = [42u8; 32];
    let mut store = store_with(b"cred1", public_key_bytes(&sk));
    let ad = authenticator_data(0x04); // UV only
    let cdj = format!(
        r#"{{"type":"webauthn.get","challenge":"{}"}}"#,
        challenge_text(&payload)
    )
    .into_bytes();
    let sig = sign_bundle(&sk, &ad, &cdj);
    let bundle = Signature {
        authenticator_data: ad,
        client_data_json: cdj,
        credential_id: b"cred1".to_vec(),
        signature: sig,
    };
    let r = FullAuthenticator.check_auth(&mut store, &payload.to_vec(), &bundle);
    assert_eq!(r, Err(Error::AuthDataUserNotPresent));
}

#[test]
fn full_missing_verification_bit_is_user_not_verified() {
    let sk = test_key();
    let payload = [42u8; 32];
    let mut store = store_with(b"cred1", public_key_bytes(&sk));
    let ad = authenticator_data(0x01); // UP only
    let cdj = format!(
        r#"{{"type":"webauthn.get","challenge":"{}"}}"#,
        challenge_text(&payload)
    )
    .into_bytes();
    let sig = sign_bundle(&sk, &ad, &cdj);
    let bundle = Signature {
        authenticator_data: ad,
        client_data_json: cdj,
        credential_id: b"cred1".to_vec(),
        signature: sig,
    };
    let r = FullAuthenticator.check_auth(&mut store, &payload.to_vec(), &bundle);
    assert_eq!(r, Err(Error::AuthDataUserNotVerified));
}

#[test]
fn validate_flags_directly() {
    assert_eq!(validate(&authenticator_data(0x05)), Ok(()));
    assert_eq!(
        validate(&authenticator_data(0x04)),
        Err(Error::AuthDataUserNotPresent)
    );
    assert_eq!(
        validate(&authenticator_data(0x01)),
        Err(Error::AuthDataUserNotVerified)
    );
    // too short for the offset-32 flag read
    assert_eq!(validate(&vec![0u8; 32]), Err(Error::AuthDataUserNotPresent));
}

#[test]
fn lease_renews_even_when_the_request_fails() {
    let sk = test_key();
    let payload = [42u8; 32];
    let mut store = store_with(b"cred1", public_key_bytes(&sk));
    assert_eq!(store.current_expiry(), INITIAL_EXPIRY);
    let mut bundle = valid_bundle(&sk, &payload);
    bundle.credential_id = b"nobody".to_vec();
    let r = FullAuthenticator.check_auth(&mut store, &payload.to_vec(), &bundle);
    assert!(r.is_err());
    assert_eq!(store.current_expiry(), MAX_EXPIRY);
    // renewing again never decreases the expiry
    let r2 = FullAuthenticator.check_auth(&mut store, &payload.to_vec(), &bundle);
    assert!(r2.is_err());
    assert_eq!(store.current_expiry(), MAX_EXPIRY);
}

#[test]
fn minimal_valid_signature_succeeds() {
    let sk = test_key();
    let payload = [9u8; 32];
    let mut store = store_with(b"cred1", public_key_bytes(&sk));
    let bundle = MinimalSignature {
        credential_id: b"cred1".to_vec(),
        signature: Some(sign_payload(&sk, &payload)),
    };
    let r = MinimalAuthenticator.check_auth(&mut store, &payload.to_vec(), &bundle);
    assert_eq!(r, Ok(()));
    assert_eq!(store.current_expiry(), MAX_EXPIRY);
}

#[test]
fn minimal_unknown_id_is_signer_not_found() {
    let sk = test_key();
    let payload = [9u8; 32];
    let mut store = store_with(b"cred1", public_key_bytes(&sk));
    let bundle = MinimalSignature {
        credential_id: b"cred9".to_vec(),
        signature: Some(sign_payload(&sk, &payload)),
    };
    let r = MinimalAuthenticator.check_auth(&mut store, &payload.to_vec(), &bundle);
    assert_eq!(r, Err(Error::SignerNotFound));
}

#[test]
fn minimal_missing_signature_is_no_signature() {
    let sk = test_key();
    let payload = [9u8; 32];
    let mut store = store_with(b"cred1", public_key_bytes(&sk));
    let bundle = MinimalSignature { credential_id: b"cred1".to_vec(), signature: None };
    let r = MinimalAuthenticator.check_auth(&mut store, &payload.to_vec(), &bundle);
    assert_eq!(r, Err(Error::NoSignature));
}

#[test]
fn minimal_any_other_mismatch_is_invalid_signature() {
    let sk = test_key();
    let payload = [9u8; 32];
    let mut store = store_with(b"cred1", public_key_bytes(&sk));
    // tampered signature
    let mut sig = sign_payload(&sk, &payload);
    sig[10] ^= 0xff;
    let bundle = MinimalSignature {
        credential_id: b"cred1".to_vec(),
        signature: Some(sig),
    };
    let r = MinimalAuthenticator.check_auth(&mut store, &payload.to_vec(), &bundle);
    assert_eq!(r, Err(Error::InvalidSignature));
    // wrong-length signature
    let bundle2 = MinimalSignature {
        credential_id: b"cred1".to_vec(),
        signature: Some(vec![1u8; 10]),
    };
    let r2 = MinimalAuthenticator.check_auth(&mut store, &payload.to_vec(), &bundle2);
    assert_eq!(r2, Err(Error::InvalidSignature));
    // signature over a different payload
    let bundle3 = MinimalSignature {
        credential_id: b"cred1".to_vec(),
        signature: Some(sign_payload(&sk, &[8u8; 32])),
    };
    let r3 = MinimalAuthenticator.check_auth(&mut store, &payload.to_vec(), &bundle3);
    assert_eq!(r3, Err(Error::InvalidSignature));
}

#[test]
fn store_lookup_and_write_once_registration() {
    let sk = test_key();
    let pk = public_key_bytes(&sk);
    let store = store_with(b"cred1", pk.clone());
    let found = store.get(&DataKey::CredentialId(b"cred1".to_vec()));
    assert_eq!(found, Some(pk));
    let missing = store.get(&DataKey::CredentialId(b"cred2".to_vec()));
    assert_eq!(missing, None);
}

#[test]
fn error_codes_are_stable() {
    assert_eq!(Error::SignerNotFound.code(), 1);
    assert_eq!(Error::ClientDataParseError.code(), 2);
    assert_eq!(Error::ClientDataInvalidType.code(), 3);
    assert_eq!(Error::ClientDataInvalidChallenge.code(), 4);
    assert_eq!(Error::AuthDataUserNotPresent.code(), 5);
    assert_eq!(Error::AuthDataUserNotVerified.code(), 6);
    assert_eq!(Error::NoSignature.code(), 7);
    assert_eq!(Error::InvalidSignature.code(), 8);
}
