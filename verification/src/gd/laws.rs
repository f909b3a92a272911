//! What reading the level server's replies gives back of what was put into them.
use crate::base64_text;
use crate::gd;
use crate::gd::LevelInfo;
use crate::number;
use crate::text;
use vstd::prelude::*;
use vstd::utf8;

verus! {

/// The value under a key is the one that the map holds there.
pub proof fn law_value(fields: Map<Seq<char>, Seq<char>>, key: Seq<char>, v: Seq<char>)
    ensures
        gd::value(fields, key) == Some(v) <==> fields.contains_key(key) && fields[key] == v,
        gd::value(fields, key) is None <==> !fields.contains_key(key),
{
}

/// Only what was given is found: a value stands right after its key, at an even place.
pub proof fn law_only_given_values(parts: Seq<Seq<char>>, key: Seq<char>, v: Seq<char>)
    requires
        gd::value(gd::paired(parts), key) == Some(v),
    ensures
        exists|k: int|
            0 <= k && 2 * k + 1 < parts.len() && #[trigger] parts[2 * k] == key && parts[2 * k + 1]
                == v,
    decreases parts.len(),
{
    let n = parts.len() as int;
    if n >= 2 {
        let cut = if n % 2 == 1 {
            parts.take(n - 1)
        } else {
            parts.take(n - 2)
        };
        if n % 2 == 0 && parts[n - 2] == key {
            let k = (n - 2) / 2;
            assert(parts[2 * k] == key);
        } else {
            law_only_given_values(cut, key, v);
            let k = choose|k: int|
                0 <= k && 2 * k + 1 < cut.len() && #[trigger] cut[2 * k] == key && cut[2 * k + 1]
                    == v;
            assert(parts[2 * k] == key);
        }
    }
}

/// A reply falls into its sections: the first is the level's, the others keep their places.
pub proof fn law_sections(sections: Seq<Seq<char>>, i: int)
    requires
        sections.len() > 0,
        0 <= i,
        forall|j: int| 0 <= j < sections.len() ==> !(#[trigger] sections[j]).contains('#'),
    ensures
        gd::level_fields(text::joined(sections, seq!['#'])) == gd::key_values(sections[0]),
        gd::section(text::joined(sections, seq!['#']), i) == (if i < sections.len() {
            Some(sections[i])
        } else {
            None
        }),
{
    reveal_strlit("#");
    assert("#"@ == seq!['#']);
    text::law_joined_split(sections, '#');
}

/// An entry `player:name` or `player:name:account` falls into the player and the name.
proof fn lemma_entry(entry: Seq<char>, player: Seq<char>, name: Seq<char>, account: Seq<char>)
    requires
        !player.contains(':'),
        !name.contains(':'),
        entry == player + seq![':'] + name || entry == player + seq![':'] + name + seq![':']
            + account,
    ensures
        text::pieces(entry, seq![':']).len() >= 2,
        text::pieces(entry, seq![':'])[0] == player,
        text::pieces(entry, seq![':'])[1] == name,
{
    let colon = seq![':'];
    if entry == player + colon + name {
        text::law_split_at_char(player, ':', name);
        text::law_split_at_char(name, ':', Seq::empty());
    } else {
        let rest = name + colon + account;
        assert(entry == player + colon + rest);
        text::law_split_at_char(player, ':', rest);
        text::law_split_at_char(name, ':', account);
    }
}

/// The first part of an entry stands before a colon if there are more parts.
proof fn lemma_entry_start(entry: Seq<char>)
    requires
        text::pieces(entry, seq![':']).len() >= 2,
    ensures
        text::pieces(entry, seq![':'])[0].push(':').is_prefix_of(entry),
{
    let colon = seq![':'];
    let parts = text::pieces(entry, colon);
    text::law_split_joined(entry, colon);
    let rest = text::joined(parts.skip(1), colon);
    assert(entry == parts[0] + colon + rest);
    assert(parts[0] + colon == parts[0].push(':'));
}

/// The name of an entry is found under its player, unless a later entry is about the same player.
proof fn lemma_usernames_read(
    entries: Seq<Seq<char>>,
    k: int,
    player: Seq<char>,
    name: Seq<char>,
    account: Seq<char>,
)
    requires
        0 <= k < entries.len(),
        !player.contains(':'),
        !name.contains(':'),
        entries[k] == player + seq![':'] + name || entries[k] == player + seq![':'] + name
            + seq![':'] + account,
        forall|j: int|
            k < j < entries.len() ==> !player.push(':').is_prefix_of(#[trigger] entries[j]),
    ensures
        gd::value(gd::usernames(entries), player) == Some(name),
    decreases entries.len(),
{
    reveal_strlit(":");
    assert(":"@ == seq![':']);
    let n = entries.len() - 1;
    let last = entries[n];
    let parts = text::pieces(last, ":"@);
    if k == n {
        lemma_entry(last, player, name, account);
    } else {
        let cut = entries.take(n);
        assert forall|j: int| k < j < cut.len() implies !player.push(':').is_prefix_of(
            #[trigger] cut[j],
        ) by {
            assert(!player.push(':').is_prefix_of(entries[j]));
        }
        lemma_usernames_read(cut, k, player, name, account);
        assert(!player.push(':').is_prefix_of(entries[n]));
        if parts.len() >= 2 {
            lemma_entry_start(last);
            assert(parts[0] != player);
        }
    }
}

/// Creator entries read back: under the player of an entry stands the name in it, unless a later
/// entry is about the same player.
pub proof fn law_creators_read_back(
    entries: Seq<Seq<char>>,
    k: int,
    player: Seq<char>,
    name: Seq<char>,
    account: Seq<char>,
)
    requires
        0 <= k < entries.len(),
        forall|j: int| 0 <= j < entries.len() ==> !(#[trigger] entries[j]).contains('|'),
        !player.contains(':'),
        !name.contains(':'),
        entries[k] == player + seq![':'] + name || entries[k] == player + seq![':'] + name
            + seq![':'] + account,
        forall|j: int|
            k < j < entries.len() ==> !player.push(':').is_prefix_of(#[trigger] entries[j]),
    ensures
        gd::value(gd::creators(text::joined(entries, seq!['|'])), player) == Some(name),
{
    reveal_strlit("|");
    assert("|"@ == seq!['|']);
    text::law_joined_split(entries, '|');
    lemma_usernames_read(entries, k, player, name, account);
}

/// No name is made up: one that is found under a player stands in an entry about that player.
pub proof fn law_only_given_creators(entries: Seq<Seq<char>>, player: Seq<char>, name: Seq<char>)
    requires
        entries.len() > 0,
        forall|j: int| 0 <= j < entries.len() ==> !(#[trigger] entries[j]).contains('|'),
        gd::value(gd::creators(text::joined(entries, seq!['|'])), player) == Some(name),
    ensures
        exists|k: int|
            0 <= k < entries.len() && {
                let start = player + seq![':'] + name;
                #[trigger] entries[k] == start || start.push(':').is_prefix_of(entries[k])
            },
{
    reveal_strlit("|");
    assert("|"@ == seq!['|']);
    text::law_joined_split(entries, '|');
    lemma_only_given_usernames(entries, player, name);
}

proof fn lemma_only_given_usernames(entries: Seq<Seq<char>>, player: Seq<char>, name: Seq<char>)
    requires
        gd::value(gd::usernames(entries), player) == Some(name),
    ensures
        exists|k: int|
            0 <= k < entries.len() && {
                let start = player + seq![':'] + name;
                #[trigger] entries[k] == start || start.push(':').is_prefix_of(entries[k])
            },
    decreases entries.len(),
{
    if entries.len() > 0 {
        reveal_strlit(":");
        assert(":"@ == seq![':']);
        let n = entries.len() - 1;
        let last = entries[n];
        let parts = text::pieces(last, ":"@);
        let cut = entries.take(n);
        if parts.len() >= 2 && parts[0] == player {
            text::law_split_joined(last, ":"@);
            let rest = text::joined(parts.skip(1), ":"@);
            assert(last == player + ":"@ + rest);
            let start = player + seq![':'] + name;
            if parts.len() == 2 {
                assert(rest == name);
                assert(entries[n] == start);
            } else {
                assert(parts.skip(1).skip(1) == parts.skip(2));
                assert(rest == name + ":"@ + text::joined(parts.skip(2), ":"@));
                assert(start.push(':').is_prefix_of(last)) by {
                    assert(last == start.push(':') + text::joined(parts.skip(2), ":"@));
                }
                assert(start.push(':').is_prefix_of(entries[n]));
            }
        } else {
            lemma_only_given_usernames(cut, player, name);
            let k = choose|k: int|
                0 <= k < cut.len() && {
                    let start = player + seq![':'] + name;
                    #[trigger] cut[k] == start || start.push(':').is_prefix_of(cut[k])
                };
            assert(entries[k] == cut[k]);
        }
    }
}

/// The creator of a level is the player in field 6, under the name that the creators section gives
/// that player.
pub proof fn law_creator_username(
    info: LevelInfo,
    sections: Seq<Seq<char>>,
    entries: Seq<Seq<char>>,
    k: int,
    player: Seq<char>,
    name: Seq<char>,
    account: Seq<char>,
)
    requires
        gd::describes(info, text::joined(sections, seq!['#'])),
        sections.len() >= 2,
        forall|j: int| 0 <= j < sections.len() ==> !(#[trigger] sections[j]).contains('#'),
        gd::value(gd::key_values(sections[0]), "6"@) == Some(player),
        sections[1] == text::joined(entries, seq!['|']),
        0 <= k < entries.len(),
        forall|j: int| 0 <= j < entries.len() ==> !(#[trigger] entries[j]).contains('|'),
        !player.contains(':'),
        !name.contains(':'),
        entries[k] == player + seq![':'] + name || entries[k] == player + seq![':'] + name
            + seq![':'] + account,
        forall|j: int|
            k < j < entries.len() ==> !player.push(':').is_prefix_of(#[trigger] entries[j]),
    ensures
        info.creator_username@ == name,
{
    law_sections(sections, 1);
    law_creators_read_back(entries, k, player, name, account);
}

/// The creator is given as `-` if the level names no player, or if no entry is about that player.
pub proof fn law_creator_unknown(
    info: LevelInfo,
    sections: Seq<Seq<char>>,
    entries: Seq<Seq<char>>,
)
    requires
        gd::describes(info, text::joined(sections, seq!['#'])),
        sections.len() >= 1,
        forall|j: int| 0 <= j < sections.len() ==> !(#[trigger] sections[j]).contains('#'),
        sections.len() >= 2 ==> sections[1] == text::joined(entries, seq!['|']),
        sections.len() >= 2 ==> entries.len() > 0,
        forall|j: int| 0 <= j < entries.len() ==> !(#[trigger] entries[j]).contains('|'),
        gd::value(gd::key_values(sections[0]), "6"@) matches Some(player) ==> sections.len() < 2
            || forall|j: int|
            0 <= j < entries.len() ==> !player.push(':').is_prefix_of(#[trigger] entries[j]),
    ensures
        info.creator_username@ == seq!['-'],
{
    reveal_strlit("-");
    reveal_strlit("");
    assert("-"@ == seq!['-']);
    let body = text::joined(sections, seq!['#']);
    law_sections(sections, 1);
    if let Some(player) = gd::value(gd::key_values(sections[0]), "6"@) {
        let listed = if sections.len() >= 2 {
            entries
        } else {
            seq![Seq::<char>::empty()]
        };
        assert(""@ == Seq::<char>::empty());
        assert(gd::text_or(gd::section(body, 1), ""@) == text::joined(listed, seq!['|']));
        let names = gd::creators(text::joined(listed, seq!['|']));
        if let Some(name) = gd::value(names, player) {
            law_only_given_creators(listed, player, name);
            let start = player + seq![':'] + name;
            let k = choose|k: int|
                0 <= k < listed.len() && {
                    #[trigger] listed[k] == start || start.push(':').is_prefix_of(listed[k])
                };
            assert(player.push(':').is_prefix_of(listed[k]));
        }
    }
}

/// A level's figures read back: numerals that fit come out as the numbers that they stand for.
pub proof fn law_figures_read_back(info: LevelInfo, body: Seq<char>, n: nat)
    requires
        gd::describes(info, body),
    ensures
        ({
            let level = gd::level_fields(body);
            let numeral = number::decimal(n);
            &&& gd::value(level, "1"@) == Some(numeral) && n <= u64::MAX ==> info.id == n
            &&& gd::value(level, "18"@) == Some(numeral) && n <= u32::MAX ==> info.stars == n
            &&& gd::value(level, "10"@) == Some(numeral) && n <= u64::MAX ==> info.downloads == n
            &&& gd::value(level, "14"@) == Some(numeral) && n <= i64::MAX ==> info.likes == n
            &&& gd::value(level, "14"@) == Some(seq!['-'] + numeral) && -(n as int) >= i64::MIN
                ==> info.likes == -(n as int)
        }),
{
    number::law_numeral_up_to(n, u64::MAX as nat);
    number::law_numeral_up_to(n, u32::MAX as nat);
    number::law_signed_numeral_read(n);
}

/// `field` holds digits that are worth `n`, with or without a `+` before them.
pub open spec fn says_number(field: Option<Seq<char>>, n: nat) -> bool {
    exists|body: Seq<char>|
        #![trigger number::is_numeral(body)]
        number::is_numeral(body) && (field == Some(body) || field == Some(seq!['+'] + body))
            && number::digits_value(body) == n
}

/// A level's figures are not made up: one that is not zero stands in its field.
pub proof fn law_figures_given(info: LevelInfo, body: Seq<char>)
    requires
        gd::describes(info, body),
    ensures
        ({
            let level = gd::level_fields(body);
            &&& info.id != 0 ==> says_number(gd::value(level, "1"@), info.id as nat)
            &&& info.stars != 0 ==> says_number(gd::value(level, "18"@), info.stars as nat)
            &&& info.downloads != 0 ==> says_number(gd::value(level, "10"@), info.downloads as nat)
            &&& info.likes > 0 ==> says_number(gd::value(level, "14"@), info.likes as nat)
            &&& info.likes < 0 ==> exists|digits: Seq<char>|
                #![trigger number::is_numeral(digits)]
                number::is_numeral(digits) && gd::value(level, "14"@) == Some(seq!['-'] + digits)
                    && number::digits_value(digits) == -info.likes
        }),
{
    let level = gd::level_fields(body);
    if let Some(s) = gd::value(level, "1"@) {
        number::law_bounded_value(s, u64::MAX as nat, info.id as nat);
    }
    if let Some(s) = gd::value(level, "18"@) {
        number::law_bounded_value(s, u32::MAX as nat, info.stars as nat);
    }
    if let Some(s) = gd::value(level, "10"@) {
        number::law_bounded_value(s, u64::MAX as nat, info.downloads as nat);
    }
    if let Some(s) = gd::value(level, "14"@) {
        number::law_i64_value(s, info.likes as int);
    }
}

/// A level's name and description read back, and are empty if they are not given.
pub proof fn law_texts_read_back(
    info: LevelInfo,
    body: Seq<char>,
    variant: base64_text::Variant,
    content: Seq<char>,
)
    requires
        gd::describes(info, body),
    ensures
        ({
            let level = gd::level_fields(body);
            let raw = base64_text::encoded(variant, utf8::encode_utf8(content));
            &&& gd::value(level, "2"@) == Some(content) ==> info.name@ == content
            &&& gd::value(level, "2"@) is None ==> info.name@.len() == 0
            &&& gd::value(level, "3"@) == Some(raw) ==> info.description@ == text::trimmed(content)
            &&& gd::value(level, "3"@) is None ==> info.description@.len() == 0
        }),
{
    reveal_strlit("");
    gd::law_description_read_back(variant, content);
}

/// A description is not made up: unless it is empty, it is the trimmed text whose Base64 was given.
pub proof fn law_description_given(raw: Option<Seq<char>>)
    requires
        gd::description(raw).len() > 0,
    ensures
        exists|content: Seq<char>|
            #![trigger utf8::encode_utf8(content)]
            gd::description(raw) == text::trimmed(content) && (raw == Some(
                base64_text::encoded(base64_text::Variant::UrlSafe, utf8::encode_utf8(content)),
            ) || raw == Some(
                base64_text::encoded(base64_text::Variant::Standard, utf8::encode_utf8(content)),
            )),
{
    let s = raw->0;
    let bytes = base64_text::decoded_either(s)->0;
    let content = utf8::decode_utf8(bytes);
    base64_text::law_decoded_was_encoded(s, bytes);
    utf8::decode_utf8_encode_utf8(bytes);
    assert(utf8::encode_utf8(content) == bytes);
}

/// Difficulty and length are those of the level in the first section, the song goes with the third.
pub proof fn law_sections_of_level(info: LevelInfo, sections: Seq<Seq<char>>)
    requires
        gd::describes(info, text::joined(sections, seq!['#'])),
        sections.len() > 0,
        forall|j: int| 0 <= j < sections.len() ==> !(#[trigger] sections[j]).contains('#'),
    ensures
        ({
            let level = gd::key_values(sections[0]);
            let songs = if sections.len() > 2 {
                Some(sections[2])
            } else {
                None
            };
            &&& info.difficulty@ == gd::difficulty(level)
            &&& info.length@ == gd::length(level)
            &&& info.song_name@ == gd::song(level, songs).0
            &&& info.song_artist@ == gd::song(level, songs).1
            &&& info.song_id == gd::song(level, songs).2
        }),
{
    law_sections(sections, 2);
}

/// A song is one of the game's own exactly if the level names no other, or names it `0`.
pub proof fn law_official_song_flag(info: LevelInfo, body: Seq<char>)
    requires
        gd::describes(info, body),
    ensures
        info.is_official_song <==> gd::value(gd::level_fields(body), "35"@) is None || gd::value(
            gd::level_fields(body),
            "35"@,
        ) == Some(seq!['0']),
{
    reveal_strlit("0");
    assert("0"@ == seq!['0']);
}

/// The ID of a song that a level brings along reads back, whatever the song section says: a numeral
/// that fits comes out as its number.
pub proof fn law_custom_song_id(
    level: Map<Seq<char>, Seq<char>>,
    section: Option<Seq<char>>,
    n: nat,
)
    requires
        0 < n <= u32::MAX,
        gd::value(level, "35"@) == Some(number::decimal(n)),
    ensures
        gd::song(level, section).2 == n,
{
    reveal_strlit("0");
    assert("0"@ == number::decimal(0));
    if number::decimal(n) == number::decimal(0) {
        number::law_decimal_injective(n, 0);
    }
    number::law_numeral_up_to(n, u32::MAX as nat);
}

/// The ID of a song that a level brings along is not made up: unless it is zero, it stands in
/// field 35.
pub proof fn law_custom_song_id_given(
    level: Map<Seq<char>, Seq<char>>,
    section: Option<Seq<char>>,
    id: Seq<char>,
)
    requires
        gd::value(level, "35"@) == Some(id),
        id != seq!['0'],
        gd::song(level, section).2 != 0,
    ensures
        says_number(Some(id), gd::song(level, section).2),
        gd::song(level, section).2 <= u32::MAX,
{
    reveal_strlit("0");
    assert("0"@ == seq!['0']);
    number::law_bounded_value(id, u32::MAX as nat, gd::song(level, section).2);
}

/// A song that a level brings along is described by the song section, if that section is about it:
/// its fields 2 and 4 are the name and the artist.
pub proof fn law_custom_song_read_back(
    level: Map<Seq<char>, Seq<char>>,
    parts: Seq<Seq<char>>,
    id: Seq<char>,
)
    requires
        gd::value(level, "35"@) == Some(id),
        id != seq!['0'],
        parts.len() > 0,
        forall|k: int| 0 <= k < parts.len() ==> !(#[trigger] parts[k]).contains('~'),
        gd::value(gd::paired(parts), seq!['1']) == Some(id),
    ensures
        ({
            let found = gd::song(level, Some(text::joined(parts, seq!['~', '|', '~'])));
            &&& found.0 == (match gd::value(gd::paired(parts), seq!['2']) {
                Some(name) => name,
                None => "Unknown"@,
            })
            &&& found.1 == (match gd::value(gd::paired(parts), seq!['4']) {
                Some(artist) => artist,
                None => "Unknown"@,
            })
        }),
{
    lemma_song_literals();
    text::law_joined_split_at(parts, "~|~"@);
}

/// A song that a level brings along is unknown if there is no song section, or one that is not
/// about it.
pub proof fn law_custom_song_unknown(
    level: Map<Seq<char>, Seq<char>>,
    parts: Seq<Seq<char>>,
    id: Seq<char>,
)
    requires
        gd::value(level, "35"@) == Some(id),
        id != seq!['0'],
        parts.len() > 0,
        forall|k: int| 0 <= k < parts.len() ==> !(#[trigger] parts[k]).contains('~'),
        gd::value(gd::paired(parts), seq!['1']) != Some(id),
    ensures
        gd::song(level, None).0 == "Unknown"@,
        gd::song(level, None).1 == "Unknown"@,
        gd::song(level, Some(text::joined(parts, seq!['~', '|', '~']))).0 == "Unknown"@,
        gd::song(level, Some(text::joined(parts, seq!['~', '|', '~']))).1 == "Unknown"@,
{
    lemma_song_literals();
    text::law_joined_split_at(parts, "~|~"@);
}

proof fn lemma_song_literals()
    ensures
        "0"@ == seq!['0'],
        "1"@ == seq!['1'],
        "2"@ == seq!['2'],
        "4"@ == seq!['4'],
        "~|~"@ == seq!['~', '|', '~'],
{
    reveal_strlit("0");
    reveal_strlit("1");
    reveal_strlit("2");
    reveal_strlit("4");
    reveal_strlit("~|~");
}

/// A song of the game's own is the one at the place that field 11 gives: the names of the
/// soundtrack in order, one artist, and the place as the ID.
pub proof fn law_official_song(
    level: Map<Seq<char>, Seq<char>>,
    section: Option<Seq<char>>,
    place: nat,
)
    requires
        gd::value(level, "35"@) is None || gd::value(level, "35"@) == Some(seq!['0']),
        gd::value(level, "11"@) == Some(number::decimal(place)) || gd::value(level, "11"@) is None
            && place == 0,
        place <= u32::MAX,
    ensures
        gd::song(level, section).1 == "RobTop"@,
        gd::song(level, section).2 == place,
        place >= 22 ==> gd::song(level, section).0 == "Unknown"@,
        place < 22 ==> gd::song(level, section).0 == seq![
            "Stereo Madness"@,
            "Back on Track"@,
            "Polargeist"@,
            "Dry Out"@,
            "Base After Base"@,
            "Cant Let Go"@,
            "Jumper"@,
            "Time Machine"@,
            "Cycles"@,
            "xStep"@,
            "Clutterfunk"@,
            "Theory of Everything"@,
            "Electroman Adventures"@,
            "Clubstep"@,
            "Electrodynamix"@,
            "Hexagon Force"@,
            "Blast Processing"@,
            "Theory of Everything 2"@,
            "Geometrical Dominator"@,
            "Deadlocked"@,
            "Fingerdash"@,
            "Dash"@,
        ][place as int],
{
    lemma_song_literals();
    number::law_numeral_up_to(place, usize::MAX as nat);
}

/// A place beyond 32 bits keeps its lower 32 bits as the ID.
pub proof fn law_official_song_far_place(
    level: Map<Seq<char>, Seq<char>>,
    section: Option<Seq<char>>,
    place: nat,
)
    requires
        gd::value(level, "35"@) is None || gd::value(level, "35"@) == Some(seq!['0']),
        gd::value(level, "11"@) == Some(number::decimal(place)),
        u32::MAX < place <= usize::MAX,
    ensures
        gd::song(level, section).0 == "Unknown"@,
        gd::song(level, section).1 == "RobTop"@,
        gd::song(level, section).2 <= u32::MAX,
        (place - gd::song(level, section).2) % 0x1_0000_0000 == 0,
{
    lemma_song_literals();
    number::law_numeral_up_to(place, usize::MAX as nat);
}

/// A place that is no numeral, or too large for the machine, counts as the first.
pub proof fn law_official_song_no_place(
    level: Map<Seq<char>, Seq<char>>,
    section: Option<Seq<char>>,
    field: Seq<char>,
)
    requires
        gd::value(level, "35"@) is None || gd::value(level, "35"@) == Some(seq!['0']),
        gd::value(level, "11"@) == Some(field),
        forall|n: nat| n <= usize::MAX ==> !says_number(Some(field), n),
    ensures
        gd::song(level, section) == ("Stereo Madness"@, "RobTop"@, 0nat),
{
    lemma_song_literals();
    if let Some(n) = number::bounded_value(field, usize::MAX as nat) {
        number::law_bounded_value(field, usize::MAX as nat, n);
        assert(says_number(Some(field), n));
    }
}

/// Field `key` of a level is the text `v`.
pub open spec fn field_is(
    level: Map<Seq<char>, Seq<char>>,
    key: Seq<char>,
    v: Seq<char>,
) -> bool {
    level.contains_key(key) && level[key] == v
}

/// What each name of a difficulty says about the level: no two kinds of level share a name.
pub proof fn law_difficulty_told(level: Map<Seq<char>, Seq<char>>)
    ensures
        ({
            let demon = field_is(level, "17"@, seq!['1']);
            let auto_level = !demon && field_is(level, "25"@, seq!['1']);
            let plain = !demon && !auto_level;
            let name = gd::difficulty(level);
            &&& name == "Easy Demon"@ <==> demon && field_is(level, "43"@, seq!['3'])
            &&& name == "Medium Demon"@ <==> demon && field_is(level, "43"@, seq!['4'])
            &&& name == "Insane Demon"@ <==> demon && field_is(level, "43"@, seq!['5'])
            &&& name == "Extreme Demon"@ <==> demon && field_is(level, "43"@, seq!['6'])
            &&& name == "Hard Demon"@ <==> demon && !field_is(level, "43"@, seq!['3']) && !field_is(
                level,
                "43"@,
                seq!['4'],
            ) && !field_is(level, "43"@, seq!['5']) && !field_is(level, "43"@, seq!['6'])
            &&& name == "Auto"@ <==> auto_level
            &&& name == "Easy"@ <==> plain && field_is(level, "9"@, seq!['1', '0'])
            &&& name == "Normal"@ <==> plain && field_is(level, "9"@, seq!['2', '0'])
            &&& name == "Hard"@ <==> plain && field_is(level, "9"@, seq!['3', '0'])
            &&& name == "Harder"@ <==> plain && field_is(level, "9"@, seq!['4', '0'])
            &&& name == "Insane"@ <==> plain && field_is(level, "9"@, seq!['5', '0'])
            &&& name == "N/A"@ <==> plain && !field_is(level, "9"@, seq!['1', '0']) && !field_is(
                level,
                "9"@,
                seq!['2', '0'],
            ) && !field_is(level, "9"@, seq!['3', '0']) && !field_is(level, "9"@, seq!['4', '0'])
                && !field_is(level, "9"@, seq!['5', '0'])
        }),
{
    lemma_difficulty_names();
    lemma_codes();
}

/// What each name of a length says about the level.
pub proof fn law_length_told(level: Map<Seq<char>, Seq<char>>)
    ensures
        ({
            let name = gd::length(level);
            &&& name == "Tiny"@ <==> field_is(level, "15"@, seq!['0'])
            &&& name == "Short"@ <==> field_is(level, "15"@, seq!['1'])
            &&& name == "Medium"@ <==> field_is(level, "15"@, seq!['2'])
            &&& name == "Long"@ <==> field_is(level, "15"@, seq!['3'])
            &&& name == "XL"@ <==> field_is(level, "15"@, seq!['4'])
            &&& name == "Platformer"@ <==> field_is(level, "15"@, seq!['5'])
            &&& name == "Unknown"@ <==> forall|c: char|
                '0' <= c <= '5' ==> !#[trigger] field_is(level, "15"@, seq![c])
        }),
{
    lemma_length_names();
    lemma_codes();
    if gd::length(level) == "Unknown"@ {
        assert forall|c: char| '0' <= c <= '5' implies !#[trigger] field_is(
            level,
            "15"@,
            seq![c],
        ) by {
            assert(c == '0' || c == '1' || c == '2' || c == '3' || c == '4' || c == '5');
        }
    } else {
        assert(field_is(level, "15"@, seq!['0']) || field_is(level, "15"@, seq!['1']) || field_is(
            level,
            "15"@,
            seq!['2'],
        ) || field_is(level, "15"@, seq!['3']) || field_is(level, "15"@, seq!['4']) || field_is(
            level,
            "15"@,
            seq!['5'],
        ));
    }
}

proof fn lemma_codes()
    ensures
        "0"@ == seq!['0'],
        "1"@ == seq!['1'],
        "2"@ == seq!['2'],
        "3"@ == seq!['3'],
        "4"@ == seq!['4'],
        "5"@ == seq!['5'],
        "6"@ == seq!['6'],
        "10"@ == seq!['1', '0'],
        "20"@ == seq!['2', '0'],
        "30"@ == seq!['3', '0'],
        "40"@ == seq!['4', '0'],
        "50"@ == seq!['5', '0'],
        forall|a: char, b: char| seq![a] == seq![b] ==> a == b,
        forall|a: char, b: char, c: char, d: char| seq![a, c] == seq![b, d] ==> a == b && c == d,
{
    reveal_strlit("0");
    reveal_strlit("1");
    reveal_strlit("2");
    reveal_strlit("3");
    reveal_strlit("4");
    reveal_strlit("5");
    reveal_strlit("6");
    reveal_strlit("10");
    reveal_strlit("20");
    reveal_strlit("30");
    reveal_strlit("40");
    reveal_strlit("50");
    assert forall|a: char, b: char| seq![a] == seq![b] implies a == b by {
        assert(seq![a][0] == a && seq![b][0] == b);
    }
    assert forall|a: char, b: char, c: char, d: char| seq![a, c] == seq![b, d] implies a == b && c
        == d by {
        assert(seq![a, c][0] == a && seq![b, d][0] == b);
        assert(seq![a, c][1] == c && seq![b, d][1] == d);
    }
}

/// Length and first two characters, which tell the names apart.
spec fn tag(s: Seq<char>) -> (nat, char, char) {
    (s.len(), s[0], s[1])
}

proof fn lemma_difficulty_names()
    ensures
        tag("Easy Demon"@) == (10nat, 'E', 'a'),
        tag("Medium Demon"@) == (12nat, 'M', 'e'),
        tag("Insane Demon"@) == (12nat, 'I', 'n'),
        tag("Extreme Demon"@) == (13nat, 'E', 'x'),
        tag("Hard Demon"@) == (10nat, 'H', 'a'),
        tag("Auto"@) == (4nat, 'A', 'u'),
        tag("Easy"@) == (4nat, 'E', 'a'),
        tag("Normal"@) == (6nat, 'N', 'o'),
        tag("Hard"@) == (4nat, 'H', 'a'),
        tag("Harder"@) == (6nat, 'H', 'a'),
        tag("Insane"@) == (6nat, 'I', 'n'),
        tag("N/A"@) == (3nat, 'N', '/'),
{
    reveal_strlit("Easy Demon");
    reveal_strlit("Medium Demon");
    reveal_strlit("Insane Demon");
    reveal_strlit("Extreme Demon");
    reveal_strlit("Hard Demon");
    reveal_strlit("Auto");
    reveal_strlit("Easy");
    reveal_strlit("Normal");
    reveal_strlit("Hard");
    reveal_strlit("Harder");
    reveal_strlit("Insane");
    reveal_strlit("N/A");
}

proof fn lemma_length_names()
    ensures
        tag("Tiny"@) == (4nat, 'T', 'i'),
        tag("Short"@) == (5nat, 'S', 'h'),
        tag("Medium"@) == (6nat, 'M', 'e'),
        tag("Long"@) == (4nat, 'L', 'o'),
        tag("XL"@) == (2nat, 'X', 'L'),
        tag("Platformer"@) == (10nat, 'P', 'l'),
        tag("Unknown"@) == (7nat, 'U', 'n'),
{
    reveal_strlit("Tiny");
    reveal_strlit("Short");
    reveal_strlit("Medium");
    reveal_strlit("Long");
    reveal_strlit("XL");
    reveal_strlit("Platformer");
    reveal_strlit("Unknown");
}

/// Levels are looked up on the game's own server.
pub proof fn law_search_address()
    ensures
        gd::SEARCH_URL@ == "https://www.boomlings.com/"@ + "database/getGJLevels21.php"@,
{
    reveal_strlit("https://www.boomlings.com/");
    reveal_strlit("database/getGJLevels21.php");
    reveal_strlit("https://www.boomlings.com/database/getGJLevels21.php");
    assert(gd::SEARCH_URL@ =~= "https://www.boomlings.com/"@ + "database/getGJLevels21.php"@);
}

} // verus!
