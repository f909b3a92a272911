//! What the bot asks of Reddit.
use crate::form;
use crate::number;
use vstd::prelude::*;

verus! {

/// The subreddit that the bot watches.
pub const SUBREDDIT: &'static str = "geometrydash";

/// How many posts are fetched at once.
pub const LISTING_LIMIT: u32 = 100;

/// Where comments are posted.
pub const COMMENT_URL: &'static str = "https://oauth.reddit.com/api/comment";

/// Where comments are distinguished.
pub const DISTINGUISH_URL: &'static str = "https://oauth.reddit.com/api/distinguish";

/// [`roux::util::url::build_oauth`] puts the address of Reddit's OAuth service before a path.
#[verifier::external_body]
fn build_oauth(dest: &str) -> (r: String)
    ensures
        r@ == "https://oauth.reddit.com/"@ + dest@,
{
    roux::util::url::build_oauth(dest)
}

/// The address of the newest posts in the subreddit.
pub fn listing_url() -> (r: String)
    ensures
        r@ == "https://oauth.reddit.com/"@ + ("r/"@ + SUBREDDIT@ + "/new"@) + "?limit="@
            + number::decimal(LISTING_LIMIT as nat),
{
    let mut path = "r/".to_owned();
    path.append(SUBREDDIT);
    path.append("/new");
    let mut r = build_oauth(path.as_str());
    r.append("?limit=");
    r.append(number::decimal_string(LISTING_LIMIT as u64).as_str());
    r
}

/// The form that posts `reply` under the post or comment `parent`. Reddit answers in JSON only if
/// it is told to.
pub fn comment_form(reply: &str, parent: &str) -> (r: Vec<(String, String)>)
    ensures
        form::fields(r@) == seq![
            ("api_type"@, "json"@),
            ("text"@, reply@),
            ("parent"@, parent@),
        ],
{
    let mut r: Vec<(String, String)> = Vec::new();
    form::add_field(&mut r, "api_type", "json");
    form::add_field(&mut r, "text", reply);
    form::add_field(&mut r, "parent", parent);
    r
}

/// The form that marks a comment as a moderator's and pins it to the top.
pub fn sticky_form(comment: &str) -> (r: Vec<(String, String)>)
    ensures
        form::fields(r@) == seq![
            ("api_type"@, "json"@),
            ("how"@, "yes"@),
            ("sticky"@, "true"@),
            ("id"@, comment@),
        ],
{
    let mut r: Vec<(String, String)> = Vec::new();
    form::add_field(&mut r, "api_type", "json");
    form::add_field(&mut r, "how", "yes");
    form::add_field(&mut r, "sticky", "true");
    form::add_field(&mut r, "id", comment);
    r
}

/// Everything is asked of Reddit's OAuth service.
pub proof fn law_api_addresses()
    ensures
        COMMENT_URL@ == "https://oauth.reddit.com/"@ + "api/comment"@,
        DISTINGUISH_URL@ == "https://oauth.reddit.com/"@ + "api/distinguish"@,
{
    reveal_strlit("https://oauth.reddit.com/");
    reveal_strlit("api/comment");
    reveal_strlit("api/distinguish");
    reveal_strlit("https://oauth.reddit.com/api/comment");
    reveal_strlit("https://oauth.reddit.com/api/distinguish");
    assert(COMMENT_URL@ =~= "https://oauth.reddit.com/"@ + "api/comment"@);
    assert(DISTINGUISH_URL@ =~= "https://oauth.reddit.com/"@ + "api/distinguish"@);
}

} // verus!
