use rgd_zbot::gd::LevelInfo;
use rgd_zbot::reddit::{format_reply, PostReplyBlock};

fn sample_level() -> LevelInfo {
    LevelInfo {
        id: 12345678,
        name: "Test Level".to_owned(),
        description: "A test description".to_owned(),
        creator_username: "creator".to_owned(),
        difficulty: "Hard".to_owned(),
        stars: 6,
        downloads: 1000,
        likes: 50,
        length: "Long".to_owned(),
        song_name: "Cool Song".to_owned(),
        song_artist: "Some Artist".to_owned(),
        song_id: 999999,
        is_official_song: false,
    }
}

#[test]
fn reply_block_contains_level_name() {
    let block = PostReplyBlock(&sample_level()).to_string();
    assert!(
        block.contains("**[Test Level](https://gdbrowser.com/12345678)**"),
        "expected bold linked level name"
    );
}

#[test]
fn reply_block_stats_line_format() {
    let block = PostReplyBlock(&sample_level()).to_string();
    assert!(block.contains("Hard"), "expected difficulty label");
    assert!(
        block.contains("6★"),
        "expected star count with unicode star"
    );
    assert!(block.contains("Long"), "expected length");
    assert!(
        block.contains("1,000 downloads"),
        "expected formatted download count"
    );
    assert!(block.contains("50 likes"), "expected like count");
    assert!(
        block.contains("Some Artist (999999)"),
        "expected artist with song ID in parens"
    );
}

#[test]
fn reply_block_omits_description_when_empty() {
    let mut info = sample_level();
    info.description = String::new();
    let block = PostReplyBlock(&info).to_string();
    assert!(!block.contains("\n\n>"), "unexpected description block");
}

#[test]
fn reply_block_omits_description_when_whitespace_only() {
    let mut info = sample_level();
    info.description = "  \n  ".to_owned();
    let block = PostReplyBlock(&info).to_string();
    assert!(
        !block.contains("\n\n>"),
        "unexpected whitespace-only description block"
    );
}

#[test]
fn reply_block_description_newlines_flattened() {
    let mut info = sample_level();
    info.description = "line one\nline two".to_owned();
    let block = PostReplyBlock(&info).to_string();
    assert!(
        !block.contains('\n') || block.lines().all(|l| !l.starts_with("line")),
        "raw newline leaked into blockquote"
    );
}

#[test]
fn format_reply_contains_footer() {
    let reply = format_reply(&sample_level());
    assert!(reply.contains("Automated"), "footer missing from reply");
    assert!(reply.contains("___"), "horizontal rule missing");
}

#[test]
fn whole_block() {
    assert_eq!(
        PostReplyBlock(&sample_level()).to_string(),
        "**[Test Level](https://gdbrowser.com/12345678)** by creator (12345678)\n\n> A test description\n\nHard · 6★ · Long · 1,000 downloads · 50 likes  \n*[Cool Song](https://www.newgrounds.com/audio/listen/999999)* by Some Artist (999999)"
    );
}

#[test]
fn whole_reply() {
    let info = sample_level();
    let block = PostReplyBlock(&info).to_string();
    assert_eq!(
        format_reply(&info),
        format!("{block}\n\n___\n\n^(Automated) ^| ^by ^[sayajiaji](https://www.reddit.com/user/Sayajiaji) ^| ^[instructions](https://www.reddit.com/r/geometrydash/wiki/bot) ^| ^[source](https://github.com/cl3847/rgd-zbot/)")
    );
}

#[test]
fn negative_likes() {
    let mut info = sample_level();
    info.likes = -1234567;
    assert!(PostReplyBlock(&info).to_string().contains(" · -1,234,567 likes  \n"));
    info.likes = i64::MIN;
    assert!(PostReplyBlock(&info).to_string().contains("-9,223,372,036,854,775,808 likes"));
    info.likes = i64::MAX;
    assert!(PostReplyBlock(&info).to_string().contains(" 9,223,372,036,854,775,807 likes"));
}

#[test]
fn only_newgrounds_songs_are_linked() {
    let mut info = sample_level();
    info.song_id = 9_999_999;
    assert!(PostReplyBlock(&info).to_string().contains("*[Cool Song](https://www.newgrounds.com/audio/listen/9999999)*"));
    info.song_id = 10_000_000;
    assert!(PostReplyBlock(&info).to_string().contains("*Cool Song* by Some Artist (10000000)"));
    info.song_id = 3;
    info.is_official_song = true;
    assert!(PostReplyBlock(&info).to_string().contains("*Cool Song* by Some Artist (3)"));
}

#[test]
fn description_trimmed_and_flattened() {
    let mut info = sample_level();
    info.description = " \u{3000}one\ntwo\r\nthree\t".to_owned();
    assert!(PostReplyBlock(&info).to_string().contains("\n\n> one two\r three\n\n"));
}
