# rgd-zbot

A Reddit bot for r/geometrydash. It watches for posts whose titles name a level ID, looks the level
up on the game's server and replies with the level's details.

* `src/` is the library, verified with Verus: finding level IDs in titles, reading the level server's
  replies, writing the reply, and every decision about polling, backing off, retrying and skipping
  posts.
* `app/` is the program around it: the environment, HTTP, JSON, the clock and the log.
* `tests/` runs the library.

The program reads `REDDIT_CLIENT_ID`, `REDDIT_CLIENT_SECRET`, `REDDIT_USERNAME` and
`REDDIT_PASSWORD` from the environment or from a `.env` file.

## What is taken on trust

* `reddit::level_id::capture`: matching the two ID patterns with the `regex` crate.
* `base64_text::decode_url_safe` and `decode_standard`: decoding with the `base64` crate.
* `reddit::request::build_oauth`: addressing Reddit with the `roux` crate.
* `String::push`, `String::from_utf8` and `char::is_whitespace` of the standard library.
