use crate::auth_data;
use crate::auth_data::auth_data_check;
use crate::base64_url;
use crate::base64_url::b64u_encoding;
use crate::client_data;
use crate::client_data::client_data_fields;
use crate::crypto;
use crate::crypto::{p256_verifies, sha256_of};
use crate::errors::Error;
use crate::store::{bytes_eq, clone_bytes, renewed_expiry, CredentialStore, DataKey};
use vstd::prelude::*;

verus! {

/// The bytes of the literal `webauthn.get`, the only accepted `type` value.
pub open spec fn webauthn_get_type() -> Seq<u8> {
    seq![119u8, 101u8, 98u8, 97u8, 117u8, 116u8, 104u8, 110u8, 46u8, 103u8, 101u8, 116u8]
}

/// A full WebAuthn assertion bundle, constructed per call and discarded.
#[derive(Clone)]
pub struct Signature {
    pub authenticator_data: Vec<u8>,
    pub client_data_json: Vec<u8>,
    pub credential_id: Vec<u8>,
    pub signature: Vec<u8>,
}

/// A minimal assertion bundle: just the credential id and a raw signature.
#[derive(Clone)]
pub struct MinimalSignature {
    pub credential_id: Vec<u8>,
    pub signature: Option<Vec<u8>>,
}

/// The verdict of the full WebAuthn policy on one request, over the stored
/// credentials, the 32-byte payload being authorized, and the bundle's
/// fields. The steps, each denial terminal: unknown credential id; ECDSA
/// check of the signature over SHA-256(authenticator_data ‖
/// SHA-256(client_data_json)) — a mismatch, an abort in the ledger
/// deployment, is surfaced as `InvalidSignature`; client data extraction;
/// the `type` field against `webauthn.get`; the `challenge` field against
/// the base64url form of the payload; the user-presence and
/// user-verification flag bits.
pub open spec fn full_auth_decision(
    creds: Map<Seq<u8>, Seq<u8>>,
    payload: Seq<u8>,
    ad: Seq<u8>,
    cdj: Seq<u8>,
    cid: Seq<u8>,
    sg: Seq<u8>,
) -> Result<(), Error> {
    if !creds.contains_key(cid) {
        Err(Error::SignerNotFound)
    } else if !p256_verifies(creds[cid], sha256_of(ad + sha256_of(cdj)), sg) {
        Err(Error::InvalidSignature)
    } else {
        match client_data_fields(cdj) {
            None => Err(Error::ClientDataParseError),
            Some((ty, ch)) => {
                if ty != webauthn_get_type() {
                    Err(Error::ClientDataInvalidType)
                } else if ch != b64u_encoding(payload) {
                    Err(Error::ClientDataInvalidChallenge)
                } else {
                    auth_data_check(ad)
                }
            },
        }
    }
}

/// The verdict of the minimal policy: the stored key must exist, a signature
/// must be present, and it must be a valid ECDSA-P256 signature directly
/// over the 32-byte payload.
pub open spec fn minimal_auth_decision(
    creds: Map<Seq<u8>, Seq<u8>>,
    payload: Seq<u8>,
    cid: Seq<u8>,
    sg: Option<Seq<u8>>,
) -> Result<(), Error> {
    if !creds.contains_key(cid) {
        Err(Error::SignerNotFound)
    } else {
        match sg {
            None => Err(Error::NoSignature),
            Some(sb) => if p256_verifies(creds[cid], payload, sb) {
                Ok(())
            } else {
                Err(Error::InvalidSignature)
            },
        }
    }
}

/// One authenticator capability with two interchangeable policies, chosen at
/// provisioning time. A call renews the store's lease first, unconditionally
/// and exactly once — before and independent of the verification outcome —
/// and then decides the request without touching the credential mapping.
pub trait AccountAuthenticator: Sized {
    /// The assertion bundle this policy consumes.
    type Assertion;

    /// What a caller must guarantee of a bundle before the check.
    spec fn assertion_wf(&self, assertion: &Self::Assertion) -> bool;

    /// The policy's verdict as a function of the stored credentials, the
    /// payload and the bundle.
    spec fn decision(
        &self,
        creds: Map<Seq<u8>, Seq<u8>>,
        payload: Seq<u8>,
        assertion: &Self::Assertion,
    ) -> Result<(), Error>;

    /// Decide one authorization request.
    fn check_auth(
        &self,
        store: &mut CredentialStore,
        signature_payload: &Vec<u8>,
        assertion: &Self::Assertion,
    ) -> (r: Result<(), Error>)
        requires
            old(store).wf(),
            signature_payload@.len() == 32,
            self.assertion_wf(assertion),
        ensures
            final(store).wf(),
            final(store).creds() == old(store).creds(),
            final(store).max_expiry() == old(store).max_expiry(),
            final(store).expiry() == renewed_expiry(
                old(store).expiry(),
                old(store).max_expiry(),
            ),
            old(store).expiry() <= final(store).expiry(),
            r == self.decision(old(store).creds(), signature_payload@, assertion),
    ;
}

/// The full WebAuthn assertion policy.
pub struct FullAuthenticator;

/// The minimal raw-signature policy.
pub struct MinimalAuthenticator;

/// Whether `t` holds exactly the bytes of `webauthn.get`.
fn is_webauthn_get(t: &Vec<u8>) -> (r: bool)
    ensures
        r == (t@ == webauthn_get_type()),
{
    if t.len() != 12 {
        proof {
            assert(webauthn_get_type().len() == 12);
        }
        return false;
    }
    let r = t[0] == 119 && t[1] == 101 && t[2] == 98 && t[3] == 97 && t[4] == 117 && t[5] == 116
        && t[6] == 104 && t[7] == 110 && t[8] == 46 && t[9] == 103 && t[10] == 101 && t[11]
        == 116;
    proof {
        if r {
            assert(t@ =~= webauthn_get_type());
        }
    }
    r
}

impl AccountAuthenticator for FullAuthenticator {
    type Assertion = Signature;

    /// The bundle's signature field must be the raw 64 bytes r ‖ s.
    open spec fn assertion_wf(&self, assertion: &Signature) -> bool {
        assertion.signature@.len() == 64
    }

    open spec fn decision(
        &self,
        creds: Map<Seq<u8>, Seq<u8>>,
        payload: Seq<u8>,
        assertion: &Signature,
    ) -> Result<(), Error> {
        full_auth_decision(
            creds,
            payload,
            assertion.authenticator_data@,
            assertion.client_data_json@,
            assertion.credential_id@,
            assertion.signature@,
        )
    }

    fn check_auth(
        &self,
        store: &mut CredentialStore,
        signature_payload: &Vec<u8>,
        assertion: &Signature,
    ) -> (r: Result<(), Error>) {
        store.renew_lease();
        let key = DataKey::CredentialId(clone_bytes(&assertion.credential_id));
        let public_key = match store.get(&key) {
            Some(pk) => pk,
            None => {
                return Err(Error::SignerNotFound);
            },
        };
        if !crypto::verify(
            &public_key,
            &assertion.authenticator_data,
            &assertion.client_data_json,
            &assertion.signature,
        ) {
            return Err(Error::InvalidSignature);
        }
        let parsed = match client_data::parse(&assertion.client_data_json) {
            Ok(p) => p,
            Err(e) => {
                return Err(e);
            },
        };
        if !is_webauthn_get(&parsed.type_field) {
            return Err(Error::ClientDataInvalidType);
        }
        let mut expected: Vec<u8> = Vec::new();
        let mut i: usize = 0;
        while i < 43
            invariant
                i <= 43,
                expected@.len() == i,
            decreases 43 - i,
        {
            expected.push(0);
            i = i + 1;
        }
        let encoded = base64_url::encode(&mut expected, signature_payload);
        proof {
            assert(encoded is Ok);
        }
        if !bytes_eq(&parsed.challenge, &expected) {
            return Err(Error::ClientDataInvalidChallenge);
        }
        auth_data::validate(&assertion.authenticator_data)
    }
}

impl AccountAuthenticator for MinimalAuthenticator {
    type Assertion = MinimalSignature;

    /// Any bundle may be handed in; a malformed signature is just invalid.
    open spec fn assertion_wf(&self, assertion: &MinimalSignature) -> bool {
        true
    }

    open spec fn decision(
        &self,
        creds: Map<Seq<u8>, Seq<u8>>,
        payload: Seq<u8>,
        assertion: &MinimalSignature,
    ) -> Result<(), Error> {
        minimal_auth_decision(
            creds,
            payload,
            assertion.credential_id@,
            match assertion.signature {
                Some(ref sb) => Some(sb@),
                None => None,
            },
        )
    }

    fn check_auth(
        &self,
        store: &mut CredentialStore,
        signature_payload: &Vec<u8>,
        assertion: &MinimalSignature,
    ) -> (r: Result<(), Error>) {
        store.renew_lease();
        let key = DataKey::CredentialId(clone_bytes(&assertion.credential_id));
        let public_key = match store.get(&key) {
            Some(pk) => pk,
            None => {
                return Err(Error::SignerNotFound);
            },
        };
        let sig = match assertion.signature {
            Some(ref sb) => sb,
            None => {
                return Err(Error::NoSignature);
            },
        };
        if crypto::p256_verify(&public_key, signature_payload, sig) {
            Ok(())
        } else {
            Err(Error::InvalidSignature)
        }
    }
}

/// The full policy authorizes exactly the validly constructed assertions: a
/// registered credential, a correct signature over the bundle, a `type` of
/// `webauthn.get`, a challenge matching the payload's base64url form, and
/// both flag bits set.
pub proof fn lemma_full_success_iff(
    creds: Map<Seq<u8>, Seq<u8>>,
    payload: Seq<u8>,
    ad: Seq<u8>,
    cdj: Seq<u8>,
    cid: Seq<u8>,
    sg: Seq<u8>,
)
    ensures
        full_auth_decision(creds, payload, ad, cdj, cid, sg) == Ok::<(), Error>(()) <==> ({
            &&& creds.contains_key(cid)
            &&& p256_verifies(creds[cid], sha256_of(ad + sha256_of(cdj)), sg)
            &&& client_data_fields(cdj) == Some((webauthn_get_type(), b64u_encoding(payload)))
            &&& ad.len() >= 33
            &&& ad[32] & 0x01 == 0x01
            &&& ad[32] & 0x04 == 0x04
        }),
{
}

/// An unknown credential id is the one fault both policies report as
/// `SignerNotFound`, whatever the rest of the bundle holds.
pub proof fn lemma_unknown_credential_denied(
    creds: Map<Seq<u8>, Seq<u8>>,
    payload: Seq<u8>,
    ad: Seq<u8>,
    cdj: Seq<u8>,
    cid: Seq<u8>,
    sg: Seq<u8>,
)
    requires
        !creds.contains_key(cid),
    ensures
        full_auth_decision(creds, payload, ad, cdj, cid, sg) == Err::<(), Error>(
            Error::SignerNotFound,
        ),
        minimal_auth_decision(creds, payload, cid, Some(sg)) == Err::<(), Error>(
            Error::SignerNotFound,
        ),
{
}

/// For a known credential, signature bytes that do not verify over the
/// bundle's data are denied as `InvalidSignature` before any client data or
/// flag check is reached.
pub proof fn lemma_bad_signature_denied(
    creds: Map<Seq<u8>, Seq<u8>>,
    payload: Seq<u8>,
    ad: Seq<u8>,
    cdj: Seq<u8>,
    cid: Seq<u8>,
    sg: Seq<u8>,
)
    requires
        creds.contains_key(cid),
        !p256_verifies(creds[cid], sha256_of(ad + sha256_of(cdj)), sg),
    ensures
        full_auth_decision(creds, payload, ad, cdj, cid, sg) == Err::<(), Error>(
            Error::InvalidSignature,
        ),
{
}

/// A correctly signed bundle whose `type` field is anything but
/// `webauthn.get` is denied as exactly `ClientDataInvalidType`.
pub proof fn lemma_wrong_type_denied(
    creds: Map<Seq<u8>, Seq<u8>>,
    payload: Seq<u8>,
    ad: Seq<u8>,
    cdj: Seq<u8>,
    cid: Seq<u8>,
    sg: Seq<u8>,
    ty: Seq<u8>,
    ch: Seq<u8>,
)
    requires
        creds.contains_key(cid),
        p256_verifies(creds[cid], sha256_of(ad + sha256_of(cdj)), sg),
        client_data_fields(cdj) == Some((ty, ch)),
        ty != webauthn_get_type(),
    ensures
        full_auth_decision(creds, payload, ad, cdj, cid, sg) == Err::<(), Error>(
            Error::ClientDataInvalidType,
        ),
{
}

/// A correctly signed bundle of the right type whose `challenge` field is
/// not the payload's base64url form is denied as exactly
/// `ClientDataInvalidChallenge`.
pub proof fn lemma_wrong_challenge_denied(
    creds: Map<Seq<u8>, Seq<u8>>,
    payload: Seq<u8>,
    ad: Seq<u8>,
    cdj: Seq<u8>,
    cid: Seq<u8>,
    sg: Seq<u8>,
    ch: Seq<u8>,
)
    requires
        creds.contains_key(cid),
        p256_verifies(creds[cid], sha256_of(ad + sha256_of(cdj)), sg),
        client_data_fields(cdj) == Some((webauthn_get_type(), ch)),
        ch != b64u_encoding(payload),
    ensures
        full_auth_decision(creds, payload, ad, cdj, cid, sg) == Err::<(), Error>(
            Error::ClientDataInvalidChallenge,
        ),
{
}

/// An otherwise valid bundle whose user-presence bit is clear (or whose
/// authenticator data has no flags byte) is denied as exactly
/// `AuthDataUserNotPresent`.
pub proof fn lemma_user_not_present_denied(
    creds: Map<Seq<u8>, Seq<u8>>,
    payload: Seq<u8>,
    ad: Seq<u8>,
    cdj: Seq<u8>,
    cid: Seq<u8>,
    sg: Seq<u8>,
)
    requires
        creds.contains_key(cid),
        p256_verifies(creds[cid], sha256_of(ad + sha256_of(cdj)), sg),
        client_data_fields(cdj) == Some((webauthn_get_type(), b64u_encoding(payload))),
        ad.len() < 33 || ad[32] & 0x01 != 0x01,
    ensures
        full_auth_decision(creds, payload, ad, cdj, cid, sg) == Err::<(), Error>(
            Error::AuthDataUserNotPresent,
        ),
{
}

/// An otherwise valid and present bundle whose user-verification bit is
/// clear is denied as exactly `AuthDataUserNotVerified`.
pub proof fn lemma_user_not_verified_denied(
    creds: Map<Seq<u8>, Seq<u8>>,
    payload: Seq<u8>,
    ad: Seq<u8>,
    cdj: Seq<u8>,
    cid: Seq<u8>,
    sg: Seq<u8>,
)
    requires
        creds.contains_key(cid),
        p256_verifies(creds[cid], sha256_of(ad + sha256_of(cdj)), sg),
        client_data_fields(cdj) == Some((webauthn_get_type(), b64u_encoding(payload))),
        ad.len() >= 33,
        ad[32] & 0x01 == 0x01,
        ad[32] & 0x04 != 0x04,
    ensures
        full_auth_decision(creds, payload, ad, cdj, cid, sg) == Err::<(), Error>(
            Error::AuthDataUserNotVerified,
        ),
{
}

/// The minimal policy succeeds exactly when the credential is registered, a
/// signature is present, and it verifies directly over the payload.
pub proof fn lemma_minimal_success_iff(
    creds: Map<Seq<u8>, Seq<u8>>,
    payload: Seq<u8>,
    cid: Seq<u8>,
    sg: Option<Seq<u8>>,
)
    ensures
        minimal_auth_decision(creds, payload, cid, sg) == Ok::<(), Error>(()) <==> (
        creds.contains_key(cid) && sg is Some && p256_verifies(creds[cid], payload, sg->0)),
{
}

} // verus!
