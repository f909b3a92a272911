//! Who the bot is on Reddit.
use vstd::prelude::*;

verus! {

/// What it takes to open a session on Reddit, and to open it again once it has expired.
pub struct RedditAuth {
    pub user_agent: String,
    pub client_id: String,
    pub client_secret: String,
    pub username: String,
    pub password: String,
}

impl Clone for RedditAuth {
    fn clone(&self) -> (r: Self)
        ensures
            r == *self,
    {
        RedditAuth {
            user_agent: self.user_agent.clone(),
            client_id: self.client_id.clone(),
            client_secret: self.client_secret.clone(),
            username: self.username.clone(),
            password: self.password.clone(),
        }
    }
}

} // verus!
