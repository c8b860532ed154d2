use crate::errors::Error;
use vstd::prelude::*;

verus! {

/// Offset of the flags byte: it follows the 32-byte relying-party-ID hash.
pub const AUTH_DATA_FLAG_OFFSET: usize = 32;

/// Flags bit for user presence.
pub const AUTH_DATA_FLAG_UP: u8 = 0x01;

/// Flags bit for user verification.
pub const AUTH_DATA_FLAG_UV: u8 = 0x04;

/// What inspecting the authenticator data flags yields. Too-short input
/// cannot demonstrate user presence, so it is denied as
/// `AuthDataUserNotPresent`; presence is checked before verification, so the
/// two denials are mutually exclusive.
pub open spec fn auth_data_check(ad: Seq<u8>) -> Result<(), Error> {
    if ad.len() < 33 {
        Err(Error::AuthDataUserNotPresent)
    } else if ad[32] & AUTH_DATA_FLAG_UP != AUTH_DATA_FLAG_UP {
        Err(Error::AuthDataUserNotPresent)
    } else if ad[32] & AUTH_DATA_FLAG_UV != AUTH_DATA_FLAG_UV {
        Err(Error::AuthDataUserNotVerified)
    } else {
        Ok(())
    }
}

/// Inspect the flags byte at fixed offset 32 of the authenticator data:
/// denied unless both the user-presence bit (0x01) and the
/// user-verification bit (0x04) are set.
pub fn validate(authenticator_data: &Vec<u8>) -> (r: Result<(), Error>)
    ensures
        r == auth_data_check(authenticator_data@),
{
    if authenticator_data.len() < 33 {
        return Err(Error::AuthDataUserNotPresent);
    }
    let flags = authenticator_data[AUTH_DATA_FLAG_OFFSET];
    if flags & AUTH_DATA_FLAG_UP != AUTH_DATA_FLAG_UP {
        return Err(Error::AuthDataUserNotPresent);
    }
    if flags & AUTH_DATA_FLAG_UV != AUTH_DATA_FLAG_UV {
        return Err(Error::AuthDataUserNotVerified);
    }
    Ok(())
}

} // verus!
