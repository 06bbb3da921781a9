//! The authenticated session that the client works under.
use vstd::prelude::*;

verus! {

/// The mathematical value of a session.
pub struct SessionModel {
    pub access_token: Seq<char>,
    pub user_id: Seq<char>,
    pub device_id: Seq<char>,
    pub homeserver: Seq<char>,
}

/// What identifies the client to its homeserver.
#[derive(Debug)]
pub struct Session {
    pub access_token: String,
    pub user_id: String,
    pub device_id: String,
    pub homeserver: String,
}

impl View for Session {
    type V = SessionModel;

    open spec fn view(&self) -> SessionModel {
        SessionModel {
            access_token: self.access_token@,
            user_id: self.user_id@,
            device_id: self.device_id@,
            homeserver: self.homeserver@,
        }
    }
}

impl Clone for Session {
    fn clone(&self) -> (copy: Self)
        ensures
            copy == *self,
    {
        Session {
            access_token: self.access_token.clone(),
            user_id: self.user_id.clone(),
            device_id: self.device_id.clone(),
            homeserver: self.homeserver.clone(),
        }
    }
}

} // verus!
