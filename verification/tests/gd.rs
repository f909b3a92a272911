use rgd_zbot::base64_text::decode_either;
use rgd_zbot::gd::{
    decode_description, parse_creators, parse_kv, parse_search_response, resolve_difficulty,
    resolve_length, resolve_song, search_form, LevelInfo,
};

const BODY: &str = "1:128:2:Example:3:SGVsbG8sIHdvcmxkIQ:6:77:9:30:10:1234:14:-56:15:3:18:6:35:999#76:other:1|77:maker:2#1~|~999~|~2~|~Tune~|~3~|~9~|~4~|~Band#rest";

fn found(id: &str, body: &str) -> LevelInfo {
    match parse_search_response(id, body) {
        Ok(Some(info)) => info,
        _ => panic!("expected a level"),
    }
}

fn not_found(id: &str, body: &str) -> bool {
    matches!(parse_search_response(id, body), Ok(None))
}

#[test]
fn search_reads_every_field() {
    let info = found("128", BODY);
    assert_eq!(info.id, 128);
    assert_eq!(info.name, "Example");
    assert_eq!(info.description, "Hello, world!");
    assert_eq!(info.creator_username, "maker");
    assert_eq!(info.difficulty, "Hard");
    assert_eq!(info.stars, 6);
    assert_eq!(info.downloads, 1234);
    assert_eq!(info.likes, -56);
    assert_eq!(info.length, "Long");
    assert_eq!(info.song_name, "Tune");
    assert_eq!(info.song_artist, "Band");
    assert_eq!(info.song_id, 999);
    assert!(!info.is_official_song);
}

#[test]
fn search_falls_back() {
    let info = found("5", "1:5");
    assert_eq!(info.id, 5);
    assert_eq!(info.name, "");
    assert_eq!(info.description, "");
    assert_eq!(info.creator_username, "-");
    assert_eq!(info.difficulty, "N/A");
    assert_eq!(info.stars, 0);
    assert_eq!(info.downloads, 0);
    assert_eq!(info.likes, 0);
    assert_eq!(info.length, "Unknown");
    assert_eq!(info.song_name, "Stereo Madness");
    assert_eq!(info.song_artist, "RobTop");
    assert_eq!(info.song_id, 0);
    assert!(info.is_official_song);
}

#[test]
fn search_numbers() {
    let info = found("+7", "1:+7:18:4294967295:10:18446744073709551615:14:-9223372036854775808");
    assert_eq!(info.id, 7);
    assert_eq!(info.stars, u32::MAX);
    assert_eq!(info.downloads, u64::MAX);
    assert_eq!(info.likes, i64::MIN);
    let info = found("x", "1:x:18:4294967296:10:18446744073709551616:14:9223372036854775808");
    assert_eq!(info.id, 0);
    assert_eq!(info.stars, 0);
    assert_eq!(info.downloads, 0);
    assert_eq!(info.likes, 0);
    let info = found("1", "1:1:18:-1:10:+:14:-");
    assert_eq!(info.stars, 0);
    assert_eq!(info.downloads, 0);
    assert_eq!(info.likes, 0);
    let info = found("1", "1:1:18: 3:10:1_0:14:+12");
    assert_eq!(info.stars, 0);
    assert_eq!(info.downloads, 0);
    assert_eq!(info.likes, 12);
    let info = found("1", "1:1:18:007:10:\u{661}:14:--1");
    assert_eq!(info.stars, 7);
    assert_eq!(info.downloads, 0);
    assert_eq!(info.likes, 0);
}

#[test]
fn search_without_level() {
    assert!(not_found("128", "-1"));
    assert!(not_found("128", " -1\r\n"));
    assert!(not_found("129", BODY));
    assert!(not_found("0128", BODY));
}

#[test]
fn search_unexpected_response() {
    assert!(parse_search_response("128", "error code: 1005").is_err());
    assert!(parse_search_response("128", "").is_err());
    assert!(parse_search_response("128", "2:Example#1:128").is_err());
}

#[test]
fn search_asks_for_one_level() {
    let form = search_form("128");
    let expected = [("secret", "Wmfd2893gb7"), ("type", "0"), ("str", "128"), ("count", "1")];
    assert_eq!(form.len(), expected.len());
    for (field, (name, value)) in form.iter().zip(expected) {
        assert_eq!(field.0, name);
        assert_eq!(field.1, value);
    }
}

#[test]
fn kv_pairs() {
    let kv = parse_kv("a:1:b::c:3:a:4:odd");
    assert_eq!(kv.get("a"), Some("4"));
    assert_eq!(kv.get("b"), Some(""));
    assert_eq!(kv.get("c"), Some("3"));
    assert_eq!(kv.get("odd"), None);
    assert_eq!(kv.get("1"), None);
    assert_eq!(parse_kv("").get(""), None);
    assert_eq!(parse_kv(":").get(""), Some(""));
}

#[test]
fn creator_entries() {
    let names = parse_creators("1:one:10||2:two|3|4:four:40:more|1:uno:11");
    assert_eq!(names.get("1"), Some("uno"));
    assert_eq!(names.get("2"), Some("two"));
    assert_eq!(names.get("3"), None);
    assert_eq!(names.get("4"), Some("four"));
    assert_eq!(names.get(""), None);
}

#[test]
fn creator_is_looked_up_by_player() {
    assert_eq!(found("1", "1:1:6:9#8:eight:2|9:nine:3").creator_username, "nine");
    assert_eq!(found("1", "1:1:6:7#8:eight:2|9:nine:3").creator_username, "-");
    assert_eq!(found("1", "1:1#8:eight:2").creator_username, "-");
}

#[test]
fn description_variants() {
    // The same text with the URL-safe and with the standard alphabet.
    assert_eq!(decode_description(Some("w7_Dvg")), "\u{ff}\u{fe}");
    assert_eq!(decode_description(Some("w7/Dvg==")), "\u{ff}\u{fe}");
    assert_eq!(decode_description(Some("  ")), "");
    assert_eq!(decode_description(Some("ICBoaQog")), "hi");
    assert_eq!(decode_description(Some("ICAg")), "");
    assert_eq!(decode_description(Some("")), "");
    assert_eq!(decode_description(None), "");
}

#[test]
fn description_not_decodable() {
    // Padding where there is to be none, set bits after the end, mixed alphabets.
    assert_eq!(decode_description(Some("aGk")), "hi");
    assert_eq!(decode_description(Some("aGk=")), "hi");
    assert_eq!(decode_description(Some("aGk==")), "");
    assert_eq!(decode_description(Some("aGl")), "");
    assert_eq!(decode_description(Some("w7_Dv/8")), "");
    assert_eq!(decode_description(Some("a")), "");
    assert_eq!(decode_description(Some("aGk\n")), "");
    // No UTF-8.
    assert_eq!(decode_description(Some("_w")), "");
}

#[test]
fn base64_bytes() {
    assert_eq!(decode_either("-_8"), Some(vec![0xfb, 0xff]));
    assert_eq!(decode_either("+/8="), Some(vec![0xfb, 0xff]));
    assert_eq!(decode_either("AAEC"), Some(vec![0, 1, 2]));
    assert_eq!(decode_either("AAEC/w=="), Some(vec![0, 1, 2, 255]));
    assert_eq!(decode_either("AAEC/w"), None);
    assert_eq!(decode_either("AAEC_w=="), None);
    assert_eq!(decode_either(""), Some(vec![]));
}

#[test]
fn difficulties() {
    let label = |section: &str| resolve_difficulty(&parse_kv(section));
    assert_eq!(label("17:1:43:3"), "Easy Demon");
    assert_eq!(label("17:1:43:4"), "Medium Demon");
    assert_eq!(label("17:1:43:5"), "Insane Demon");
    assert_eq!(label("17:1:43:6"), "Extreme Demon");
    assert_eq!(label("17:1:43:0"), "Hard Demon");
    assert_eq!(label("17:1:25:1:9:50"), "Hard Demon");
    assert_eq!(label("25:1:9:50"), "Auto");
    assert_eq!(label("17:0:9:10"), "Easy");
    assert_eq!(label("9:20"), "Normal");
    assert_eq!(label("9:30"), "Hard");
    assert_eq!(label("9:40"), "Harder");
    assert_eq!(label("9:50"), "Insane");
    assert_eq!(label("9:60"), "N/A");
    assert_eq!(label(""), "N/A");
}

#[test]
fn lengths() {
    let label = |section: &str| resolve_length(&parse_kv(section));
    assert_eq!(label("15:0"), "Tiny");
    assert_eq!(label("15:1"), "Short");
    assert_eq!(label("15:2"), "Medium");
    assert_eq!(label("15:3"), "Long");
    assert_eq!(label("15:4"), "XL");
    assert_eq!(label("15:5"), "Platformer");
    assert_eq!(label("15:6"), "Unknown");
    assert_eq!(label(""), "Unknown");
}

fn song(section: &str, songs: Option<&str>) -> (String, String, u32) {
    resolve_song(&parse_kv(section), songs)
}

fn triple(name: &str, artist: &str, id: u32) -> (String, String, u32) {
    (name.to_owned(), artist.to_owned(), id)
}

#[test]
fn official_songs() {
    assert_eq!(song("11:0", None), triple("Stereo Madness", "RobTop", 0));
    assert_eq!(song("11:3:35:0", None), triple("Dry Out", "RobTop", 3));
    assert_eq!(song("11:21", Some("x")), triple("Dash", "RobTop", 21));
    assert_eq!(song("11:22", None), triple("Unknown", "RobTop", 22));
    assert_eq!(song("11:x", None), triple("Stereo Madness", "RobTop", 0));
    assert_eq!(song("11:4294967297", None), triple("Unknown", "RobTop", 1));
}

#[test]
fn custom_songs() {
    assert_eq!(song("35:5", None), triple("Unknown", "Unknown", 5));
    assert_eq!(song("35:5", Some("1~|~5~|~2~|~T~|~4~|~A")), triple("T", "A", 5));
    assert_eq!(song("35:5", Some("1~|~5~|~2~|~T")), triple("T", "Unknown", 5));
    assert_eq!(song("35:5", Some("1~|~6~|~2~|~T~|~4~|~A")), triple("Unknown", "Unknown", 5));
    assert_eq!(song("35:x", Some("1~|~x~|~2~|~T~|~4~|~A")), triple("T", "A", 0));
    // Separators do not overlap.
    assert_eq!(song("35:5", Some("1~|~5~|~2~|~T~|~|~4~|~A")), triple("T", "Unknown", 5));
}
