use crate::platform::AccountPlatformType;
use vstd::prelude::*;

verus! {

/// A canonical account.
///
/// `token` and `token_secret` are the account's external credential pair. An
/// account is never deleted; `deleted_at` other than zero marks it deleted.
pub struct Account {
    pub id: i64,
    pub token: String,
    pub token_secret: String,
    pub admin: i8,
    pub timezone: String,
    pub last_login_at: u64,
    pub created_at: u64,
    pub updated_at: u64,
    pub deleted_at: u64,
}

impl Clone for Account {
    fn clone(&self) -> (r: Self)
        ensures
            r == *self,
    {
        Account {
            id: self.id,
            token: self.token.clone(),
            token_secret: self.token_secret.clone(),
            admin: self.admin,
            timezone: self.timezone.clone(),
            last_login_at: self.last_login_at,
            created_at: self.created_at,
            updated_at: self.updated_at,
            deleted_at: self.deleted_at,
        }
    }
}

/// The link of one account to one identity on one platform.
pub struct AccountPlatform {
    pub id: i64,
    pub account: i64,
    pub platform: AccountPlatformType,
    pub token: String,
    pub platform_user: String,
    pub created_at: u64,
    pub updated_at: u64,
    pub deleted_at: u64,
}

impl Clone for AccountPlatform {
    fn clone(&self) -> (r: Self)
        ensures
            r == *self,
    {
        AccountPlatform {
            id: self.id,
            account: self.account,
            platform: self.platform,
            token: self.token.clone(),
            platform_user: self.platform_user.clone(),
            created_at: self.created_at,
            updated_at: self.updated_at,
            deleted_at: self.deleted_at,
        }
    }
}

/// One key/value fact about a platform link.
pub struct AccountPlatformData {
    pub id: i64,
    pub account: i64,
    pub platform: i64,
    pub key: String,
    pub value: String,
    pub created_at: u64,
    pub updated_at: u64,
    pub deleted_at: u64,
}

/// What is needed to link an account to a platform identity.
pub struct NewAccountPlatform {
    pub account: i64,
    pub platform: AccountPlatformType,
    pub platform_user: String,
}

/// A key/value fact to be written for a platform link.
pub struct NewAccountPlatformData {
    pub key: String,
    pub value: String,
}

impl Clone for NewAccountPlatformData {
    fn clone(&self) -> (r: Self)
        ensures
            r == *self,
    {
        NewAccountPlatformData { key: self.key.clone(), value: self.value.clone() }
    }
}

/// The id and key of an attribute row.
pub struct AccountPlatformDataSlim {
    pub id: i64,
    pub key: String,
}

/// An account with the identities linked to it on each platform.
pub struct AccountLinkedPlatformsResult {
    pub account_token: String,
    pub username: String,
    pub discord: String,
    pub bungie: String,
    pub twitch: String,
}

/// One attribute of one platform link of an account.
pub struct AccountLinkedPlatformDataResult {
    pub platform: String,
    pub platform_user: String,
    pub key: String,
    pub value: String,
}

/// A resolved identity as handed to the session layer.
pub struct MemberSyncResult {
    pub account_token: String,
    pub account_token_secret: String,
    pub display_name: String,
    pub username: String,
}

impl Clone for MemberSyncResult {
    fn clone(&self) -> (r: Self)
        ensures
            r == *self,
    {
        MemberSyncResult {
            account_token: self.account_token.clone(),
            account_token_secret: self.account_token_secret.clone(),
            display_name: self.display_name.clone(),
            username: self.username.clone(),
        }
    }
}

/// Why a resolution or a redemption did not succeed.
#[derive(Clone, Copy, Debug, PartialEq, Eq, Structural)]
pub enum ResolutionError {
    /// The records could not take the write: resolution aborts and nothing
    /// of it is kept.
    StoreUnavailable,
    /// Another resolution linked the same identity first.
    RaceLost,
    /// No live link code under the given code.
    CodeExpiredOrUnknown,
    /// Attribute rows could not be written; the rest stands.
    AttributeSyncPartialFailure,
}

} // verus!
