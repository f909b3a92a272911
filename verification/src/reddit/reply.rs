//! The reply to a post: Reddit markdown about a level.
use crate::gd::LevelInfo;
use crate::number;
use crate::text;
use vstd::prelude::*;

verus! {

/// The footer of every reply, in superscript.
pub const FOOTER: &'static str =
    "^(Automated) ^| ^by ^[sayajiaji](https://www.reddit.com/user/Sayajiaji) ^| ^[instructions](https://www.reddit.com/r/geometrydash/wiki/bot) ^| ^[source](https://github.com/cl3847/rgd-zbot/)";

/// Reddit markdown about a single level.
pub struct PostReplyBlock<'a>(pub &'a LevelInfo);

/// The level's name, linked and in bold, its creator and its ID.
pub open spec fn title_line(info: LevelInfo) -> Seq<char> {
    "**["@ + info.name@ + "](https://gdbrowser.com/"@ + number::decimal(info.id as nat)
        + ")** by "@ + info.creator_username@ + " ("@ + number::decimal(info.id as nat) + ")"@
}

/// `s` on one line: a space in place of every line feed.
pub open spec fn one_line(s: Seq<char>) -> Seq<char> {
    s.map_values(|c: char| if c == '\n' { ' ' } else { c })
}

/// The level's description as a block quote, which is left out if there is none.
pub open spec fn quote(info: LevelInfo) -> Seq<char> {
    let description = text::trimmed(info.description@);
    if description.len() == 0 {
        Seq::empty()
    } else {
        "\n\n> "@ + one_line(description)
    }
}

/// A number of likes, which may be negative, with thousands separators.
pub open spec fn likes_text(likes: i64) -> Seq<char> {
    if likes < 0 {
        "-"@ + number::with_commas(number::decimal((-likes) as nat))
    } else {
        number::with_commas(number::decimal(likes as nat))
    }
}

/// The name of the level's song, linked if the song is on Newgrounds.
pub open spec fn song_text(info: LevelInfo) -> Seq<char> {
    if !info.is_official_song && info.song_id < 10_000_000 {
        "["@ + info.song_name@ + "](https://www.newgrounds.com/audio/listen/"@ + number::decimal(
            info.song_id as nat,
        ) + ")"@
    } else {
        info.song_name@
    }
}

/// The level's figures and its song.
pub open spec fn stats(info: LevelInfo) -> Seq<char> {
    "\n\n"@ + info.difficulty@ + " · "@ + number::decimal(info.stars as nat) + "★ · "@
        + info.length@ + " · "@ + number::with_commas(number::decimal(info.downloads as nat))
        + " downloads · "@ + likes_text(info.likes) + " likes  \n*"@ + song_text(info) + "* by "@
        + info.song_artist@ + " ("@ + number::decimal(info.song_id as nat) + ")"@
}

/// All that a reply says about a level.
pub open spec fn reply_block(info: LevelInfo) -> Seq<char> {
    title_line(info) + quote(info) + stats(info)
}

/// A whole reply: the block about the level, a horizontal rule and the footer.
pub open spec fn reply(info: LevelInfo) -> Seq<char> {
    reply_block(info) + "\n\n___\n\n"@ + FOOTER@
}

/// Writes a number of likes.
fn format_likes(likes: i64) -> (r: String)
    ensures
        r@ == likes_text(likes),
{
    if likes < 0 {
        let mut r = "-".to_owned();
        let size: u64 = (0 - likes as i128) as u64;
        r.append(number::format_number(size).as_str());
        r
    } else {
        number::format_number(likes as u64)
    }
}

/// Puts a text on one line.
fn flatten(s: &str) -> (r: String)
    ensures
        r@ == one_line(s@),
{
    let chars = text::chars_of(s);
    let mut r = String::new();
    let mut i: usize = 0;
    while i < chars.len()
        invariant
            i <= chars@.len(),
            r@ == one_line(chars@.take(i as int)),
        decreases chars@.len() - i,
    {
        let c = chars[i];
        r.push(if c == '\n' {
            ' '
        } else {
            c
        });
        assert(one_line(chars@.take(i + 1)) == one_line(chars@.take(i as int)).push(
            if c == '\n' {
                ' '
            } else {
                c
            },
        ));
        i = i + 1;
    }
    assert(chars@.take(i as int) == chars@);
    r
}

/// Writes the title line of a block.
fn format_title(info: &LevelInfo) -> (r: String)
    ensures
        r@ == title_line(*info),
{
    let id = number::decimal_string(info.id);
    let mut r = "**[".to_owned();
    r.append(info.name.as_str());
    r.append("](https://gdbrowser.com/");
    r.append(id.as_str());
    r.append(")** by ");
    r.append(info.creator_username.as_str());
    r.append(" (");
    r.append(id.as_str());
    r.append(")");
    r
}

/// Writes the quoted description of a block.
fn format_quote(info: &LevelInfo) -> (r: String)
    ensures
        r@ == quote(*info),
{
    let description = text::trim(info.description.as_str());
    if description.as_str().is_empty() {
        String::new()
    } else {
        // A line feed would end the block quote.
        let mut r = "\n\n> ".to_owned();
        r.append(flatten(description.as_str()).as_str());
        r
    }
}

/// Writes the song of a block.
fn format_song(info: &LevelInfo) -> (r: String)
    ensures
        r@ == song_text(*info),
{
    if !info.is_official_song && info.song_id < 10_000_000 {
        let mut r = "[".to_owned();
        r.append(info.song_name.as_str());
        r.append("](https://www.newgrounds.com/audio/listen/");
        r.append(number::decimal_string(info.song_id as u64).as_str());
        r.append(")");
        r
    } else {
        info.song_name.clone()
    }
}

/// Writes the figures and the song of a block.
fn format_stats(info: &LevelInfo) -> (r: String)
    ensures
        r@ == stats(*info),
{
    let mut r = "\n\n".to_owned();
    r.append(info.difficulty.as_str());
    r.append(" · ");
    r.append(number::decimal_string(info.stars as u64).as_str());
    r.append("★ · ");
    r.append(info.length.as_str());
    r.append(" · ");
    r.append(number::format_number(info.downloads).as_str());
    r.append(" downloads · ");
    r.append(format_likes(info.likes).as_str());
    r.append(" likes  \n*");
    r.append(format_song(info).as_str());
    r.append("* by ");
    r.append(info.song_artist.as_str());
    r.append(" (");
    r.append(number::decimal_string(info.song_id as u64).as_str());
    r.append(")");
    r
}

impl<'a> PostReplyBlock<'a> {
    /// Writes the block.
    pub fn to_string(&self) -> (r: String)
        ensures
            r@ == reply_block(*self.0),
    {
        let mut r = format_title(self.0);
        r.append(format_quote(self.0).as_str());
        r.append(format_stats(self.0).as_str());
        r
    }
}

/// Writes the whole reply about a level.
pub fn format_reply(info: &LevelInfo) -> (r: String)
    ensures
        r@ == reply(*info),
{
    let mut r = PostReplyBlock(info).to_string();
    r.append("\n\n___\n\n");
    r.append(FOOTER);
    r
}

/// The quoted description stays on one line, so that nothing of it leaves the block quote.
pub proof fn law_quote_on_one_line(info: LevelInfo)
    ensures
        quote(info).len() > 0 ==> exists|line: Seq<char>|
            quote(info) == "\n\n> "@ + line && !line.contains('\n') && line.len() == text::trimmed(
                info.description@,
            ).len(),
{
    let description = text::trimmed(info.description@);
    let line = one_line(description);
    assert(!line.contains('\n')) by {
        if line.contains('\n') {
            let i = line.index_of('\n');
            assert(line[i] == '\n');
        }
    }
    if description.len() > 0 {
        assert(quote(info) == "\n\n> "@ + line);
    }
}

/// A description is quoted exactly if it holds anything but white space.
pub proof fn law_blank_description_omitted(info: LevelInfo)
    ensures
        quote(info).len() == 0 <==> forall|i: int|
            0 <= i < info.description@.len() ==> text::white_space(#[trigger] info.description@[i]),
{
    let s = info.description@;
    text::law_trimmed_surrounded(s);
    text::law_trimmed_ends(s);
    let (from, to) = choose|from: int, to: int|
        {
            &&& 0 <= from <= to <= s.len()
            &&& text::trimmed(s) == #[trigger] s.subrange(from, to)
            &&& forall|i: int| 0 <= i < from || to <= i < s.len() ==> text::white_space(s[i])
        };
    reveal_strlit("\n\n> ");
    if text::trimmed(s).len() > 0 {
        assert(s[from] == text::trimmed(s)[0]);
        assert(quote(info).len() > 0);
    }
}

/// Every reply starts with the level's linked name and ends with the horizontal rule and the
/// footer, whatever the level.
pub proof fn law_reply_framed(info: LevelInfo)
    ensures
        title_line(info).is_prefix_of(reply(info)),
        ("\n\n___\n\n"@ + FOOTER@).is_suffix_of(reply(info)),
{
    let end = "\n\n___\n\n"@ + FOOTER@;
    assert(reply(info) == reply_block(info) + end);
    assert(reply(info) == title_line(info) + (quote(info) + stats(info) + end));
}

/// A quoted description says what the description says: character by character, but for the white
/// space around it and for line feeds, which become spaces.
pub proof fn law_quote_keeps_text(info: LevelInfo, i: int)
    requires
        0 <= i < text::trimmed(info.description@).len(),
    ensures
        quote(info).len() == 4 + text::trimmed(info.description@).len(),
        quote(info).take(4) == seq!['\n', '\n', '>', ' '],
        text::trimmed(info.description@)[i] != '\n' ==> quote(info)[4 + i] == text::trimmed(
            info.description@,
        )[i],
        text::trimmed(info.description@)[i] == '\n' ==> quote(info)[4 + i] == ' ',
{
    reveal_strlit("\n\n> ");
    assert(quote(info).take(4) == "\n\n> "@);
}

/// `shown` is a numeral that is worth `n`, once the commas in it are left out.
pub open spec fn shows_number(shown: Seq<char>, n: nat) -> bool {
    let digits = shown.filter(|c: char| c != ',');
    number::is_numeral(digits) && number::digits_value(digits) == n
}

/// `shown` is `name`, or `name` as a link to the song with this ID on Newgrounds.
pub open spec fn shows_song(
    shown: Seq<char>,
    name: Seq<char>,
    song_id: u32,
    linked: bool,
) -> bool {
    if linked {
        exists|numeral: Seq<char>|
            shows_number(numeral, song_id as nat) && !numeral.contains(',') && shown == "["@ + name
                + "](https://www.newgrounds.com/audio/listen/"@ + numeral + ")"@
    } else {
        shown == name
    }
}

/// A numeral with or without thousands separators is worth its number.
proof fn lemma_shows_number(n: nat)
    ensures
        shows_number(number::decimal(n), n),
        shows_number(number::with_commas(number::decimal(n)), n),
        !number::decimal(n).contains(','),
{
    let s = number::decimal(n);
    number::law_decimal_canonical(n);
    number::law_grouped_read_back(n);
    assert forall|i: int| 0 <= i < s.len() implies s[i] != ',' by {
        assert('0' <= s[i] <= '9');
    }
    let keep = |c: char| c != ',';
    assert(s.filter(keep) == s) by {
        number::lemma_filter_all(s, keep);
    }
}

/// The whole layout of a reply. Every figure in it reads back as the level's own: the ID twice in
/// the title, the stars before the star, the downloads before ` downloads`, the likes, with a minus
/// sign if there are less than none, before ` likes`, and the ID of the song at the end. A song is
/// linked exactly if it is not the game's own and its ID is below ten million.
pub proof fn law_reply_layout(info: LevelInfo) -> (r: (
    Seq<char>,
    Seq<char>,
    Seq<char>,
    Seq<char>,
    Seq<char>,
    Seq<char>,
))
    ensures
        ({
            let (id, stars, downloads, likes, song, song_id) = r;
            let minus = if info.likes < 0 {
                "-"@
            } else {
                Seq::empty()
            };
            let size = if info.likes < 0 {
                -info.likes
            } else {
                info.likes as int
            };
            &&& shows_number(id, info.id as nat) && !id.contains(',')
            &&& shows_number(stars, info.stars as nat) && !stars.contains(',')
            &&& shows_number(downloads, info.downloads as nat)
            &&& shows_number(likes, size as nat)
            &&& shows_song(
                song,
                info.song_name@,
                info.song_id,
                !info.is_official_song && info.song_id < 10_000_000,
            )
            &&& shows_number(song_id, info.song_id as nat) && !song_id.contains(',')
            &&& reply_block(info) == "**["@ + info.name@ + "](https://gdbrowser.com/"@ + id
                + ")** by "@ + info.creator_username@ + " ("@ + id + ")"@ + quote(info) + ("\n\n"@
                + info.difficulty@ + " · "@ + stars + "★ · "@ + info.length@ + " · "@ + downloads
                + " downloads · "@ + (minus + likes) + " likes  \n*"@ + song + "* by "@
                + info.song_artist@ + " ("@ + song_id + ")"@)
            &&& reply(info) == reply_block(info) + "\n\n___\n\n"@ + FOOTER@
        }),
{
    let size = if info.likes < 0 {
        -info.likes
    } else {
        info.likes as int
    };
    let id = number::decimal(info.id as nat);
    let stars = number::decimal(info.stars as nat);
    let downloads = number::with_commas(number::decimal(info.downloads as nat));
    let likes = number::with_commas(number::decimal(size as nat));
    let song_id = number::decimal(info.song_id as nat);
    lemma_shows_number(info.id as nat);
    lemma_shows_number(info.stars as nat);
    lemma_shows_number(info.downloads as nat);
    lemma_shows_number(size as nat);
    lemma_shows_number(info.song_id as nat);
    if info.likes >= 0 {
        assert(Seq::<char>::empty() + likes == likes);
    }
    (id, stars, downloads, likes, song_text(info), song_id)
}

/// What stands before the same ending is determined by the text.
proof fn lemma_same_start(x: Seq<char>, y: Seq<char>, end: Seq<char>)
    requires
        x + end == y + end,
    ensures
        x == y,
{
    let (s, t) = (x + end, y + end);
    assert(s.len() == x.len() + end.len());
    assert(t.len() == y.len() + end.len());
    assert(s.take(x.len() as int) == x);
    assert(t.take(y.len() as int) == y);
}

/// What stands after the same start is determined by the text.
proof fn lemma_same_end(start: Seq<char>, x: Seq<char>, y: Seq<char>)
    requires
        start + x == start + y,
    ensures
        x == y,
{
    assert((start + x).skip(start.len() as int) == x);
    assert((start + y).skip(start.len() as int) == y);
}

/// Numerals with thousands separators are different for different numbers.
proof fn lemma_grouped_injective(m: nat, n: nat)
    requires
        number::with_commas(number::decimal(m)) == number::with_commas(number::decimal(n)),
    ensures
        m == n,
{
    number::law_grouped_read_back(m);
    number::law_grouped_read_back(n);
}

/// The figures up to the stars.
spec fn up_to_stars(info: LevelInfo) -> Seq<char> {
    "\n\n"@ + info.difficulty@ + " · "@ + number::decimal(info.stars as nat)
}

/// The figures up to the downloads.
spec fn up_to_downloads(info: LevelInfo) -> Seq<char> {
    up_to_stars(info) + "★ · "@ + info.length@ + " · "@ + number::with_commas(
        number::decimal(info.downloads as nat),
    )
}

/// The figures up to the likes.
spec fn up_to_likes(info: LevelInfo) -> Seq<char> {
    up_to_downloads(info) + " downloads · "@ + likes_text(info.likes)
}

/// The figures and the song up to the artist.
spec fn up_to_artist(info: LevelInfo) -> Seq<char> {
    up_to_likes(info) + " likes  \n*"@ + song_text(info) + "* by "@ + info.song_artist@
}

/// Equal replies with equal titles and quotes have equal figures.
proof fn lemma_same_stats(a: LevelInfo, b: LevelInfo)
    requires
        reply(a) == reply(b),
        title_line(a) == title_line(b),
        quote(a) == quote(b),
    ensures
        up_to_artist(a) + " ("@ + number::decimal(a.song_id as nat) == up_to_artist(b) + " ("@
            + number::decimal(b.song_id as nat),
{
    let rule = "\n\n___\n\n"@;
    lemma_same_start(reply_block(a) + rule, reply_block(b) + rule, FOOTER@);
    lemma_same_start(reply_block(a), reply_block(b), rule);
    lemma_same_end(title_line(a) + quote(a), stats(a), stats(b));
    lemma_same_start(
        up_to_artist(a) + " ("@ + number::decimal(a.song_id as nat),
        up_to_artist(b) + " ("@ + number::decimal(b.song_id as nat),
        ")"@,
    );
}

/// Equal figures with equal songs are equal up to the likes.
proof fn lemma_same_likes(a: LevelInfo, b: LevelInfo)
    requires
        reply(a) == reply(b),
        title_line(a) == title_line(b),
        quote(a) == quote(b),
        song_text(a) == song_text(b),
        a.song_artist == b.song_artist,
        a.song_id == b.song_id,
    ensures
        up_to_likes(a) == up_to_likes(b),
{
    lemma_same_stats(a, b);
    let song_id = number::decimal(a.song_id as nat);
    lemma_same_start(up_to_artist(a) + " ("@, up_to_artist(b) + " ("@, song_id);
    lemma_same_start(up_to_artist(a), up_to_artist(b), " ("@);
    let (s, t) = (up_to_likes(a), up_to_likes(b));
    lemma_same_start(
        s + " likes  \n*"@ + song_text(a) + "* by "@,
        t + " likes  \n*"@ + song_text(a) + "* by "@,
        a.song_artist@,
    );
    lemma_same_start(
        s + " likes  \n*"@ + song_text(a),
        t + " likes  \n*"@ + song_text(a),
        "* by "@,
    );
    lemma_same_start(s + " likes  \n*"@, t + " likes  \n*"@, song_text(a));
    lemma_same_start(s, t, " likes  \n*"@);
}

/// Two levels that differ only in their likes never get the same reply.
pub proof fn law_reply_tells_likes(a: LevelInfo, b: LevelInfo)
    requires
        b == (LevelInfo { likes: b.likes, ..a }),
        reply(a) == reply(b),
    ensures
        a.likes == b.likes,
{
    lemma_same_likes(a, b);
    lemma_same_end(
        up_to_downloads(a) + " downloads · "@,
        likes_text(a.likes),
        likes_text(b.likes),
    );
    lemma_likes_injective(a.likes, b.likes);
}

/// Two levels that differ only in their downloads never get the same reply.
pub proof fn law_reply_tells_downloads(a: LevelInfo, b: LevelInfo)
    requires
        b == (LevelInfo { downloads: b.downloads, ..a }),
        reply(a) == reply(b),
    ensures
        a.downloads == b.downloads,
{
    lemma_same_likes(a, b);
    let (s, t) = (up_to_downloads(a), up_to_downloads(b));
    lemma_same_start(s + " downloads · "@, t + " downloads · "@, likes_text(a.likes));
    lemma_same_start(s, t, " downloads · "@);
    lemma_same_end(
        up_to_stars(a) + "★ · "@ + a.length@ + " · "@,
        number::with_commas(number::decimal(a.downloads as nat)),
        number::with_commas(number::decimal(b.downloads as nat)),
    );
    lemma_grouped_injective(a.downloads as nat, b.downloads as nat);
}

/// Two levels that differ only in their stars never get the same reply.
pub proof fn law_reply_tells_stars(a: LevelInfo, b: LevelInfo)
    requires
        b == (LevelInfo { stars: b.stars, ..a }),
        reply(a) == reply(b),
    ensures
        a.stars == b.stars,
{
    lemma_same_likes(a, b);
    let (s, t) = (up_to_downloads(a), up_to_downloads(b));
    lemma_same_start(s + " downloads · "@, t + " downloads · "@, likes_text(a.likes));
    lemma_same_start(s, t, " downloads · "@);
    let downloads = number::with_commas(number::decimal(a.downloads as nat));
    let (x, y) = (up_to_stars(a), up_to_stars(b));
    lemma_same_start(
        x + "★ · "@ + a.length@ + " · "@,
        y + "★ · "@ + a.length@ + " · "@,
        downloads,
    );
    lemma_same_start(x + "★ · "@ + a.length@, y + "★ · "@ + a.length@, " · "@);
    lemma_same_start(x + "★ · "@, y + "★ · "@, a.length@);
    lemma_same_start(x, y, "★ · "@);
    lemma_same_end(
        "\n\n"@ + a.difficulty@ + " · "@,
        number::decimal(a.stars as nat),
        number::decimal(b.stars as nat),
    );
    number::law_decimal_injective(a.stars as nat, b.stars as nat);
}

/// Different numbers of likes are written differently.
proof fn lemma_likes_injective(a: i64, b: i64)
    requires
        likes_text(a) == likes_text(b),
    ensures
        a == b,
{
    reveal_strlit("-");
    let m = if a < 0 {
        (-a) as nat
    } else {
        a as nat
    };
    let n = if b < 0 {
        (-b) as nat
    } else {
        b as nat
    };
    let x = number::with_commas(number::decimal(m));
    let y = number::with_commas(number::decimal(n));
    lemma_no_minus(m);
    lemma_no_minus(n);
    if a < 0 {
        assert(likes_text(a)[0] == '-');
        assert(likes_text(a).skip(1) == x);
    }
    if b < 0 {
        assert(likes_text(b)[0] == '-');
        assert(likes_text(b).skip(1) == y);
    }
    assert(x == y);
    lemma_grouped_injective(m, n);
}

/// A numeral with thousands separators does not start with a minus sign.
proof fn lemma_no_minus(n: nat)
    ensures
        number::with_commas(number::decimal(n)).len() > 0,
        number::with_commas(number::decimal(n))[0] != '-',
{
    number::law_decimal_canonical(n);
    lemma_commas_start(number::decimal(n));
}

proof fn lemma_commas_start(s: Seq<char>)
    requires
        s.len() > 0,
    ensures
        number::with_commas(s).len() > 0,
        number::with_commas(s)[0] == s[0],
    decreases s.len(),
{
    if s.len() > 3 {
        lemma_commas_start(s.take(s.len() - 3));
    }
}

/// Two levels that differ only in the ID of their song never get the same reply, although the ID
/// also decides whether the song is linked.
pub proof fn law_reply_tells_song_id(a: LevelInfo, b: LevelInfo)
    requires
        b == (LevelInfo { song_id: b.song_id, ..a }),
        reply(a) == reply(b),
    ensures
        a.song_id == b.song_id,
{
    lemma_same_stats(a, b);
    let (x, y) = (number::decimal(a.song_id as nat), number::decimal(b.song_id as nat));
    let (p, q) = (up_to_artist(a), up_to_artist(b));
    reveal_strlit(" (");
    assert(p + " ("@ + x == p.push(' ') + seq!['('] + x);
    assert(q + " ("@ + y == q.push(' ') + seq!['('] + y);
    lemma_no_bracket(a.song_id as nat);
    lemma_no_bracket(b.song_id as nat);
    lemma_last_part(p.push(' '), q.push(' '), '(', x, y);
    number::law_decimal_injective(a.song_id as nat, b.song_id as nat);
}

/// A numeral holds no bracket.
proof fn lemma_no_bracket(n: nat)
    ensures
        !number::decimal(n).contains('('),
{
    let s = number::decimal(n);
    number::law_decimal_canonical(n);
    if s.contains('(') {
        let i = s.index_of('(');
        assert('0' <= s[i] <= '9');
    }
}

/// What follows the last `c` is determined by the text.
proof fn lemma_last_part(p: Seq<char>, q: Seq<char>, c: char, x: Seq<char>, y: Seq<char>)
    requires
        p + seq![c] + x == q + seq![c] + y,
        !x.contains(c),
        !y.contains(c),
    ensures
        x == y,
{
    let s = p + seq![c] + x;
    let t = q + seq![c] + y;
    let (m, n) = (p.len() as int, q.len() as int);
    assert(s.len() == t.len());
    assert(s[m] == c);
    assert(t[n] == c);
    if m < n {
        assert(s[n] == x[n - m - 1]);
        assert(x.contains(x[n - m - 1]));
    }
    if n < m {
        assert(t[m] == y[m - n - 1]);
        assert(y.contains(y[m - n - 1]));
    }
    assert(s.skip(m + 1) == x);
    assert(t.skip(n + 1) == y);
}

} // verus!
