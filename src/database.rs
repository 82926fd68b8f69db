//! Sessions as the local database stores them.
use vstd::prelude::*;

verus! {

/// A stored session, as read back.
#[derive(Debug)]
pub struct Session {
    pub user_id: String,
    pub access_token: String,
    pub device_id: String,
}

/// A session to store; one per user, replacing what was stored for them.
#[derive(Debug)]
pub struct NewSession {
    pub user_id: String,
    pub access_token: String,
    pub device_id: String,
}

impl NewSession {
    /// The record for a login of `user_id` on `device_id`.
    pub fn from_login(user_id: String, access_token: String, device_id: String) -> (r: NewSession)
        ensures
            r.user_id == user_id,
            r.access_token == access_token,
            r.device_id == device_id,
    {
        NewSession { user_id, access_token, device_id }
    }
}

} // verus!
