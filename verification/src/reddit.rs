//! The bot's side of Reddit: which posts it answers, what it answers, and how it keeps going.
pub mod auth;
pub mod level_id;
pub mod polling;
pub mod reply;
pub mod request;
pub mod response;
pub mod retry;
pub mod seen;
pub mod submission;

pub use auth::RedditAuth;
pub use level_id::find_level_id;
pub use reply::format_reply;
pub use reply::PostReplyBlock;
