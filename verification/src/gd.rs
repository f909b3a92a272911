//! Geometry Dash level lookup: what is asked of the level server and how its replies are read.
pub mod laws;

use crate::base64_text;
use crate::form;
use crate::number;
use crate::text;
use vstd::hash_map::StringHashMap;
use vstd::prelude::*;
use vstd::utf8;

verus! {

/// Where levels are looked up.
pub const SEARCH_URL: &'static str = "https://www.boomlings.com/database/getGJLevels21.php";

/// The soundtrack of the game itself, in the order of field 11 of a level.
pub const OFFICIAL_SONGS: [&'static str; 22] = [
    "Stereo Madness",
    "Back on Track",
    "Polargeist",
    "Dry Out",
    "Base After Base",
    "Cant Let Go",
    "Jumper",
    "Time Machine",
    "Cycles",
    "xStep",
    "Clutterfunk",
    "Theory of Everything",
    "Electroman Adventures",
    "Clubstep",
    "Electrodynamix",
    "Hexagon Force",
    "Blast Processing",
    "Theory of Everything 2",
    "Geometrical Dominator",
    "Deadlocked",
    "Fingerdash",
    "Dash",
];

/// What is known about a level.
pub struct LevelInfo {
    pub id: u64,
    pub name: String,
    pub description: String,
    pub creator_username: String,
    pub difficulty: String,
    pub stars: u32,
    pub downloads: u64,
    pub likes: i64,
    pub length: String,
    pub song_name: String,
    pub song_artist: String,
    pub song_id: u32,
    /// Whether the song belongs to the game itself, and `song_id` is its place in the soundtrack.
    pub is_official_song: bool,
}

/// Values found under text keys.
pub struct Fields {
    map: StringHashMap<String>,
}

impl View for Fields {
    type V = Map<Seq<char>, Seq<char>>;

    closed spec fn view(&self) -> Map<Seq<char>, Seq<char>> {
        self.map@.map_values(|v: String| v@)
    }
}

impl Fields {
    /// No values at all.
    pub fn new() -> (r: Fields)
        ensures
            r@ == Map::<Seq<char>, Seq<char>>::empty(),
    {
        let r = Fields { map: StringHashMap::new() };
        assert(r@ =~= Map::<Seq<char>, Seq<char>>::empty());
        r
    }

    /// Puts a value under a key, in place of one that was there.
    pub fn insert(&mut self, key: String, value: String)
        ensures
            final(self)@ == old(self)@.insert(key@, value@),
    {
        self.map.insert(key, value);
        assert(self@ =~= old(self)@.insert(key@, value@));
    }

    /// The value under a key.
    pub fn get(&self, key: &str) -> (r: Option<&str>)
        ensures
            match r {
                Some(v) => self@.contains_key(key@) && v@ == self@[key@],
                None => !self@.contains_key(key@),
            },
    {
        match self.map.get(key) {
            Some(v) => Some(v.as_str()),
            None => None,
        }
    }
}

/// The value under a key, if there is one.
pub open spec fn value(fields: Map<Seq<char>, Seq<char>>, key: Seq<char>) -> Option<Seq<char>> {
    if fields.contains_key(key) {
        Some(fields[key])
    } else {
        None
    }
}

/// Every second part put under the part before it. A later value takes the place of an earlier
/// one, and a last part without a partner is left out.
pub open spec fn paired(parts: Seq<Seq<char>>) -> Map<Seq<char>, Seq<char>>
    decreases parts.len(),
{
    if parts.len() < 2 {
        Map::empty()
    } else if parts.len() % 2 == 1 {
        paired(parts.take(parts.len() - 1))
    } else {
        paired(parts.take(parts.len() - 2)).insert(
            parts[parts.len() - 2],
            parts[parts.len() - 1],
        )
    }
}

/// What a section `key:value:key:value:...` says.
pub open spec fn key_values(section: Seq<char>) -> Map<Seq<char>, Seq<char>> {
    paired(text::pieces(section, ":"@))
}

/// The usernames in entries `playerID:username:accountID`, by player ID. A later entry takes the
/// place of an earlier one, and an entry without a username is left out.
pub open spec fn usernames(entries: Seq<Seq<char>>) -> Map<Seq<char>, Seq<char>>
    decreases entries.len(),
{
    if entries.len() == 0 {
        Map::empty()
    } else {
        let before = usernames(entries.take(entries.len() - 1));
        let parts = text::pieces(entries[entries.len() - 1], ":"@);
        if parts.len() >= 2 {
            before.insert(parts[0], parts[1])
        } else {
            before
        }
    }
}

/// What a section of creator entries separated by `|` says.
pub open spec fn creators(section: Seq<char>) -> Map<Seq<char>, Seq<char>> {
    usernames(text::pieces(section, "|"@))
}

/// The text of a level description, or nothing if it cannot be decoded.
pub open spec fn description(raw: Option<Seq<char>>) -> Seq<char> {
    match raw {
        Some(s) => match base64_text::decoded_either(s) {
            Some(bytes) if utf8::valid_utf8(bytes) => text::trimmed(utf8::decode_utf8(bytes)),
            _ => Seq::empty(),
        },
        None => Seq::empty(),
    }
}

/// The name of a level's difficulty. A demon's grade is in field 43, and being a demon counts more
/// than being an auto level, which counts more than the difficulty in field 9.
pub open spec fn difficulty(level: Map<Seq<char>, Seq<char>>) -> Seq<char> {
    let grade = value(level, "43"@);
    let face = value(level, "9"@);
    if value(level, "17"@) == Some("1"@) {
        if grade == Some("3"@) {
            "Easy Demon"@
        } else if grade == Some("4"@) {
            "Medium Demon"@
        } else if grade == Some("5"@) {
            "Insane Demon"@
        } else if grade == Some("6"@) {
            "Extreme Demon"@
        } else {
            "Hard Demon"@
        }
    } else if value(level, "25"@) == Some("1"@) {
        "Auto"@
    } else if face == Some("10"@) {
        "Easy"@
    } else if face == Some("20"@) {
        "Normal"@
    } else if face == Some("30"@) {
        "Hard"@
    } else if face == Some("40"@) {
        "Harder"@
    } else if face == Some("50"@) {
        "Insane"@
    } else {
        "N/A"@
    }
}

/// The name of a level's length.
pub open spec fn length(level: Map<Seq<char>, Seq<char>>) -> Seq<char> {
    let code = value(level, "15"@);
    if code == Some("0"@) {
        "Tiny"@
    } else if code == Some("1"@) {
        "Short"@
    } else if code == Some("2"@) {
        "Medium"@
    } else if code == Some("3"@) {
        "Long"@
    } else if code == Some("4"@) {
        "XL"@
    } else if code == Some("5"@) {
        "Platformer"@
    } else {
        "Unknown"@
    }
}

/// The ID of the song that a level brings along instead of one of the game's own.
pub open spec fn custom_song(level: Map<Seq<char>, Seq<char>>) -> Option<Seq<char>> {
    match value(level, "35"@) {
        Some(id) if id != "0"@ => Some(id),
        _ => None,
    }
}

/// The number in a field that is at most `max`, or zero if there is none.
pub open spec fn number_or_zero(field: Option<Seq<char>>, max: nat) -> nat {
    match field {
        Some(s) => match number::bounded_value(s, max) {
            Some(n) => n,
            None => 0,
        },
        None => 0,
    }
}

/// The text in a field, or `fallback` if there is none.
pub open spec fn text_or(field: Option<Seq<char>>, fallback: Seq<char>) -> Seq<char> {
    match field {
        Some(s) => s,
        None => fallback,
    }
}

/// The name, artist and ID of a song of the game's own, by its place in the soundtrack.
pub open spec fn official_song(place: nat) -> (Seq<char>, Seq<char>, nat) {
    (
        if place < OFFICIAL_SONGS@.len() {
            OFFICIAL_SONGS@[place as int]@
        } else {
            "Unknown"@
        },
        "RobTop"@,
        place % 0x1_0000_0000,
    )
}

/// The name, artist and ID of a song that a level brings along.
pub open spec fn custom_song_details(id: Seq<char>, section: Option<Seq<char>>) -> (
    Seq<char>,
    Seq<char>,
    nat,
) {
    let number = number_or_zero(Some(id), u32::MAX as nat);
    match section {
        Some(s) => {
            let fields = paired(text::pieces(s, "~|~"@));
            if value(fields, "1"@) == Some(id) {
                (
                    text_or(value(fields, "2"@), "Unknown"@),
                    text_or(value(fields, "4"@), "Unknown"@),
                    number,
                )
            } else {
                ("Unknown"@, "Unknown"@, number)
            }
        },
        None => ("Unknown"@, "Unknown"@, number),
    }
}

/// The name, artist and ID of a level's song.
pub open spec fn song(level: Map<Seq<char>, Seq<char>>, section: Option<Seq<char>>) -> (
    Seq<char>,
    Seq<char>,
    nat,
) {
    match custom_song(level) {
        Some(id) => custom_song_details(id, section),
        None => official_song(number_or_zero(value(level, "11"@), usize::MAX as nat)),
    }
}

/// A section of a reply, if the reply has that many.
pub open spec fn section(body: Seq<char>, i: int) -> Option<Seq<char>> {
    let sections = text::pieces(body, "#"@);
    if i < sections.len() {
        Some(sections[i])
    } else {
        None
    }
}

/// The fields of the level in a reply.
pub open spec fn level_fields(body: Seq<char>) -> Map<Seq<char>, Seq<char>> {
    key_values(text::pieces(body, "#"@)[0])
}

/// The username of the creator of the level in a reply: the level names the player, and the second
/// section the player's username.
pub open spec fn creator(body: Seq<char>) -> Seq<char> {
    let names = creators(text_or(section(body, 1), ""@));
    match value(level_fields(body), "6"@) {
        Some(player) => text_or(value(names, player), "-"@),
        None => "-"@,
    }
}

/// `info` holds what a reply says about its level.
pub open spec fn describes(info: LevelInfo, body: Seq<char>) -> bool {
    let level = level_fields(body);
    &&& info.id == number_or_zero(value(level, "1"@), u64::MAX as nat)
    &&& info.name@ == text_or(value(level, "2"@), ""@)
    &&& info.description@ == description(value(level, "3"@))
    &&& info.creator_username@ == creator(body)
    &&& info.difficulty@ == difficulty(level)
    &&& info.stars == number_or_zero(value(level, "18"@), u32::MAX as nat)
    &&& info.downloads == number_or_zero(value(level, "10"@), u64::MAX as nat)
    &&& info.likes == (match value(level, "14"@) {
        Some(s) => match number::i64_value(s) {
            Some(n) => n,
            None => 0,
        },
        None => 0,
    })
    &&& info.length@ == length(level)
    &&& (info.song_name@, info.song_artist@, info.song_id as nat) == song(level, section(body, 2))
    &&& info.is_official_song == (custom_song(level) is None)
}

/// Puts every second part under the part before it.
fn pair_up(parts: &Vec<String>) -> (r: Fields)
    ensures
        r@ == paired(text::texts(parts@)),
{
    let ghost all = text::texts(parts@);
    let mut r = Fields::new();
    let len: usize = parts.len();
    let mut i: usize = 0;
    while len - i >= 2
        invariant
            i <= len == parts@.len(),
            i % 2 == 0,
            all == text::texts(parts@),
            r@ == paired(all.take(i as int)),
        decreases len - i,
    {
        r.insert(parts[i].clone(), parts[i + 1].clone());
        assert(all.take(i + 2).take(i as int) == all.take(i as int));
        i = i + 2;
    }
    proof {
        if i < len {
            assert(all.take(all.len() - 1) == all.take(i as int));
        } else {
            assert(all.take(i as int) == all);
        }
    }
    r
}

/// Reads a section `key:value:key:value:...`.
pub fn parse_kv(section: &str) -> (r: Fields)
    ensures
        r@ == key_values(section@),
{
    proof {
        reveal_strlit(":");
    }
    let parts = text::split(section, ":");
    pair_up(&parts)
}

/// Reads the creator entries into usernames by player ID.
pub fn parse_creators(section: &str) -> (r: Fields)
    ensures
        r@ == creators(section@),
{
    proof {
        reveal_strlit("|");
        reveal_strlit(":");
    }
    let entries = text::split(section, "|");
    let ghost all = text::texts(entries@);
    let mut r = Fields::new();
    let mut i: usize = 0;
    while i < entries.len()
        invariant
            i <= entries@.len(),
            all == text::texts(entries@),
            ":"@.len() > 0,
            r@ == usernames(all.take(i as int)),
        decreases entries@.len() - i,
    {
        let parts = text::split(entries[i].as_str(), ":");
        assert(all.take(i + 1).take(i as int) == all.take(i as int));
        assert(text::texts(parts@) == text::pieces(all[i as int], ":"@));
        if parts.len() >= 2 {
            r.insert(parts[0].clone(), parts[1].clone());
        }
        i = i + 1;
    }
    assert(all.take(i as int) == all);
    r
}

/// The error of [`String::from_utf8`], which nothing looks into.
#[verifier::external_type_specification]
#[verifier::external_body]
pub struct ExFromUtf8Error(std::string::FromUtf8Error);

/// [`String::from_utf8`] turns bytes that are valid UTF-8 into the text that they encode, and fails
/// on other bytes.
pub assume_specification[ String::from_utf8 ](vec: Vec<u8>) -> (r: Result<
    String,
    std::string::FromUtf8Error,
>)
    ensures
        match r {
            Ok(s) => utf8::valid_utf8(vec@) && s@ == utf8::decode_utf8(vec@),
            Err(_) => !utf8::valid_utf8(vec@),
        },
;

/// Decodes a level description, which may be in URL-safe or standard Base64.
pub fn decode_description(raw: Option<&str>) -> (r: String)
    ensures
        r@ == description(text::optional(raw)),
{
    match raw {
        Some(s) => match base64_text::decode_either(s) {
            Some(bytes) => match String::from_utf8(bytes) {
                Ok(content) => text::trim(content.as_str()),
                Err(_) => String::new(),
            },
            None => String::new(),
        },
        None => String::new(),
    }
}

/// Whether there is a text and it is `expected`.
fn is_text(field: Option<&str>, expected: &str) -> (r: bool)
    ensures
        r == (text::optional(field) == Some(expected@)),
{
    match field {
        Some(s) => text::same_text(s, expected),
        None => false,
    }
}

/// The name of a level's difficulty, from fields 9, 17, 25 and 43.
pub fn resolve_difficulty(kv: &Fields) -> (r: String)
    ensures
        r@ == difficulty(kv@),
{
    let grade = kv.get("43");
    let face = kv.get("9");
    let name = if is_text(kv.get("17"), "1") {
        if is_text(grade, "3") {
            "Easy Demon"
        } else if is_text(grade, "4") {
            "Medium Demon"
        } else if is_text(grade, "5") {
            "Insane Demon"
        } else if is_text(grade, "6") {
            "Extreme Demon"
        } else {
            "Hard Demon"
        }
    } else if is_text(kv.get("25"), "1") {
        "Auto"
    } else if is_text(face, "10") {
        "Easy"
    } else if is_text(face, "20") {
        "Normal"
    } else if is_text(face, "30") {
        "Hard"
    } else if is_text(face, "40") {
        "Harder"
    } else if is_text(face, "50") {
        "Insane"
    } else {
        "N/A"
    };
    name.to_owned()
}

/// The name of a level's length, from field 15.
pub fn resolve_length(kv: &Fields) -> (r: String)
    ensures
        r@ == length(kv@),
{
    let code = kv.get("15");
    let name = if is_text(code, "0") {
        "Tiny"
    } else if is_text(code, "1") {
        "Short"
    } else if is_text(code, "2") {
        "Medium"
    } else if is_text(code, "3") {
        "Long"
    } else if is_text(code, "4") {
        "XL"
    } else if is_text(code, "5") {
        "Platformer"
    } else {
        "Unknown"
    };
    name.to_owned()
}

/// The number in a field, or zero.
fn u64_or_zero(field: Option<&str>) -> (r: u64)
    ensures
        r == number_or_zero(text::optional(field), u64::MAX as nat),
{
    match field {
        Some(s) => match number::parse_u64(s) {
            Some(n) => n,
            None => 0,
        },
        None => 0,
    }
}

/// The number in a field, or zero.
fn u32_or_zero(field: Option<&str>) -> (r: u32)
    ensures
        r == number_or_zero(text::optional(field), u32::MAX as nat),
{
    match field {
        Some(s) => match number::parse_u32(s) {
            Some(n) => n,
            None => 0,
        },
        None => 0,
    }
}

/// The text in a field, or `fallback`.
fn owned_or(field: Option<&str>, fallback: &str) -> (r: String)
    ensures
        r@ == text_or(text::optional(field), fallback@),
{
    match field {
        Some(s) => s.to_owned(),
        None => fallback.to_owned(),
    }
}

/// The ID of the song that a level brings along, from field 35.
fn custom_song_id(kv: &Fields) -> (r: Option<&str>)
    ensures
        text::optional(r) == custom_song(kv@),
{
    match kv.get("35") {
        Some(id) => if text::same_text(id, "0") {
            None
        } else {
            Some(id)
        },
        None => None,
    }
}

/// The name, artist and ID of a level's song: one of the game's own, from field 11, or one that the
/// level brings along, from field 35 and the song section.
pub fn resolve_song(kv: &Fields, song_section: Option<&str>) -> (r: (String, String, u32))
    ensures
        (r.0@, r.1@, r.2 as nat) == song(kv@, text::optional(song_section)),
{
    let id = match custom_song_id(kv) {
        Some(id) => id,
        None => {
            let place: usize = match kv.get("11") {
                Some(s) => match number::parse_usize(s) {
                    Some(n) => n,
                    None => 0,
                },
                None => 0,
            };
            let name = if place < OFFICIAL_SONGS.len() {
                OFFICIAL_SONGS[place]
            } else {
                "Unknown"
            };
            let low: u64 = place as u64 % 0x1_0000_0000u64;
            return (name.to_owned(), "RobTop".to_owned(), low as u32);
        },
    };
    let number: u32 = u32_or_zero(Some(id));
    if let Some(section) = song_section {
        proof {
            reveal_strlit("~|~");
        }
        let parts = text::split(section, "~|~");
        let fields = pair_up(&parts);
        if is_text(fields.get("1"), id) {
            return (
                owned_or(fields.get("2"), "Unknown"),
                owned_or(fields.get("4"), "Unknown"),
                number,
            );
        }
    }
    ("Unknown".to_owned(), "Unknown".to_owned(), number)
}

/// The level server answered with something that is no level data.
pub struct UnexpectedResponse;

/// Reads the level server's reply to a search for the level `id`. There is no such level if the
/// server says so with `-1` or answers with another level.
pub fn parse_search_response(id: &str, body: &str) -> (r: Result<
    Option<LevelInfo>,
    UnexpectedResponse,
>)
    ensures
        match r {
            Ok(Some(info)) => {
                &&& text::trimmed(body@) != "-1"@
                &&& value(level_fields(body@), "1"@) == Some(id@)
                &&& describes(info, body@)
            },
            Ok(None) => {
                ||| text::trimmed(body@) == "-1"@
                ||| {
                    &&& value(level_fields(body@), "1"@) is Some
                    &&& value(level_fields(body@), "1"@) != Some(id@)
                }
            },
            Err(_) => {
                &&& text::trimmed(body@) != "-1"@
                &&& value(level_fields(body@), "1"@) is None
            },
        },
{
    let bare = text::trim(body);
    if text::same_text(bare.as_str(), "-1") {
        return Ok(None);
    }
    proof {
        reveal_strlit("#");
        text::law_split_joined(body@, "#"@);
    }
    let sections = text::split(body, "#");
    assert(text::texts(sections@)[0] == sections@[0]@);
    let kv = parse_kv(sections[0].as_str());
    let actual_id = match kv.get("1") {
        Some(actual_id) => actual_id,
        None => {
            return Err(UnexpectedResponse);
        },
    };
    if !text::same_text(actual_id, id) {
        return Ok(None);
    }
    let creator_section = if sections.len() > 1 {
        assert(text::texts(sections@)[1] == sections@[1]@);
        sections[1].as_str()
    } else {
        ""
    };
    let song_section = if sections.len() > 2 {
        assert(text::texts(sections@)[2] == sections@[2]@);
        Some(sections[2].as_str())
    } else {
        None
    };
    let names = parse_creators(creator_section);
    let creator_username = match kv.get("6") {
        Some(player) => owned_or(names.get(player), "-"),
        None => "-".to_owned(),
    };
    let likes: i64 = match kv.get("14") {
        Some(s) => match number::parse_i64(s) {
            Some(n) => n,
            None => 0,
        },
        None => 0,
    };
    let (song_name, song_artist, song_id) = resolve_song(&kv, song_section);
    Ok(
        Some(
            LevelInfo {
                id: u64_or_zero(Some(actual_id)),
                name: owned_or(kv.get("2"), ""),
                description: decode_description(kv.get("3")),
                creator_username,
                difficulty: resolve_difficulty(&kv),
                stars: u32_or_zero(kv.get("18")),
                downloads: u64_or_zero(kv.get("10")),
                likes,
                length: resolve_length(&kv),
                song_name,
                song_artist,
                song_id,
                is_official_song: custom_song_id(&kv).is_none(),
            },
        ),
    )
}

/// The form that asks the level server for the level `id`.
pub fn search_form(id: &str) -> (r: Vec<(String, String)>)
    ensures
        form::fields(r@) == seq![
            ("secret"@, "Wmfd2893gb7"@),
            ("type"@, "0"@),
            ("str"@, id@),
            ("count"@, "1"@),
        ],
{
    let mut r: Vec<(String, String)> = Vec::new();
    form::add_field(&mut r, "secret", "Wmfd2893gb7");
    form::add_field(&mut r, "type", "0");
    form::add_field(&mut r, "str", id);
    form::add_field(&mut r, "count", "1");
    r
}

/// A section read back: keys and values that hold no colon come out of the section that they were
/// joined into.
pub proof fn law_key_values_read_back(parts: Seq<Seq<char>>)
    requires
        parts.len() > 0,
        forall|k: int| 0 <= k < parts.len() ==> !(#[trigger] parts[k]).contains(':'),
    ensures
        key_values(text::joined(parts, ":"@)) == paired(parts),
{
    reveal_strlit(":");
    assert(":"@ == seq![':']);
    text::law_joined_split(parts, ':');
}

/// The last value given for a key is the one that counts.
pub proof fn law_last_value_counts(parts: Seq<Seq<char>>, k: int)
    requires
        0 <= k,
        2 * k + 1 < parts.len(),
        forall|j: int|
            k < j && 2 * j + 1 < parts.len() ==> #[trigger] parts[2 * j] != parts[2 * k],
    ensures
        value(paired(parts), parts[2 * k]) == Some(parts[2 * k + 1]),
    decreases parts.len(),
{
    if parts.len() % 2 == 1 {
        let rest = parts.take(parts.len() - 1);
        assert forall|j: int| k < j && 2 * j + 1 < rest.len() implies #[trigger] rest[2 * j]
            != rest[2 * k] by {
            assert(parts[2 * j] != parts[2 * k]);
        }
        law_last_value_counts(rest, k);
    } else {
        let last = (parts.len() - 2) / 2;
        assert(2 * last == parts.len() - 2);
        if k < last {
            assert(parts[2 * last] != parts[2 * k]);
            let rest = parts.take(parts.len() - 2);
            assert forall|j: int| k < j && 2 * j + 1 < rest.len() implies #[trigger] rest[2 * j]
                != rest[2 * k] by {
                assert(parts[2 * j] != parts[2 * k]);
            }
            law_last_value_counts(rest, k);
        }
    }
}

/// A description read back: text that was encoded in either variant of Base64 comes out of it, but
/// for the white space at its ends.
pub proof fn law_description_read_back(variant: base64_text::Variant, content: Seq<char>)
    ensures
        description(Some(base64_text::encoded(variant, utf8::encode_utf8(content))))
            == text::trimmed(content),
{
    let bytes = utf8::encode_utf8(content);
    base64_text::law_decoded_either(variant, bytes);
    utf8::encode_utf8_valid_utf8(content);
    utf8::encode_utf8_decode_utf8(content);
}

/// A description neither starts nor ends with white space.
pub proof fn law_description_trimmed(raw: Option<Seq<char>>)
    ensures
        text::trimmed(description(raw)) == description(raw),
{
    if let Some(s) = raw {
        if let Some(bytes) = base64_text::decoded_either(s) {
            if utf8::valid_utf8(bytes) {
                text::law_trimmed_idempotent(utf8::decode_utf8(bytes));
            }
        }
    }
}

/// A level that was found is the level that was asked for: its ID is the number that was searched.
pub proof fn law_found_level_has_requested_id(info: LevelInfo, id: u64, body: Seq<char>)
    requires
        value(level_fields(body), "1"@) == Some(number::decimal(id as nat)),
        describes(info, body),
    ensures
        info.id == id,
{
    number::law_decimal_read_back(id as nat);
}

} // verus!
