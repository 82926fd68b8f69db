//! The login session that the client keeps between runs.
use vstd::prelude::*;

verus! {

/// What the client needs to resume a login.
#[derive(Clone, Debug)]
pub struct Session {
    pub access_token: String,
    pub user_id: String,
    pub device_id: String,
    pub homeserver: String,
}

impl Session {
    /// A copy of this session.
    pub fn duplicate(&self) -> (r: Session)
        ensures
            r == *self,
    {
        Session {
            access_token: self.access_token.clone(),
            user_id: self.user_id.clone(),
            device_id: self.device_id.clone(),
            homeserver: self.homeserver.clone(),
        }
    }
}

/// Where the session is stored, relative to the working directory.
pub fn session_path() -> (r: String)
    ensures
        r@ == "./data/config/session.toml"@,
{
    "./data/config/session.toml".to_owned()
}

} // verus!
