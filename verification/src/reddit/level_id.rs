//! Finding the ID of a level in the title of a post.
use crate::number;
use crate::text;
use vstd::prelude::*;

verus! {

/// An ID after the keyword `id`: `id 12345678`, `ID: 12345678`, `id=12345678`, `(id 12345678)`.
pub const KEYWORD_PATTERN: &'static str =
    r"(?i)(?:^|[ .?!\-\(\[])id(?: is|[:=])? ?([0-9]{6,10})\b";

/// An ID in brackets: `[12345678]` or `(12345678)`, with or without backslashes before them.
pub const BRACKETED_PATTERN: &'static str =
    r"(?:^| )\\?[\[\(]([0-9]{6,10})\\?[\]\)](?:$| )";

/// A character that may stand in a word.
pub const WORD_PATTERN: &'static str = r"^(\w)";

/// A way of writing an ID in a title.
pub enum Style {
    Keyword,
    Bracketed,
}

/// What [`regex::Regex`] captures in the first group where `pattern` matches `text` for the first
/// time, if it matches.
pub uninterp spec fn first_group(pattern: Seq<char>, text: Seq<char>) -> Option<Seq<char>>;

/// A character that may stand in a word. Those in ASCII are the letters, the digits and `_`.
pub open spec fn word_char(c: char) -> bool {
    if c <= '\u{7f}' {
        'a' <= c <= 'z' || 'A' <= c <= 'Z' || '0' <= c <= '9' || c == '_'
    } else {
        first_group(WORD_PATTERN@, seq![c]) is Some
    }
}

/// A character after which the keyword may stand.
pub open spec fn is_separator(c: char) -> bool {
    c == ' ' || c == '.' || c == '?' || c == '!' || c == '-' || c == '(' || c == '['
}

/// What may link the keyword to the ID, apart from a space: nothing, a colon, an equals sign or
/// the word `is` after a space. Upper case and the long s count as well.
pub open spec fn is_link(s: Seq<char>) -> bool {
    ||| s.len() == 0
    ||| s.len() == 1 && (s[0] == ':' || s[0] == '=')
    ||| {
        &&& s.len() == 3
        &&& s[0] == ' '
        &&& s[1] == 'i' || s[1] == 'I'
        &&& s[2] == 's' || s[2] == 'S' || s[2] == '\u{17f}'
    }
}

/// The keyword, in lower or upper case, with what links it to the ID.
pub open spec fn is_label(s: Seq<char>) -> bool {
    &&& s.len() >= 2
    &&& s[0] == 'i' || s[0] == 'I'
    &&& s[1] == 'd' || s[1] == 'D'
    &&& is_link(s.skip(2)) || s.last() == ' ' && s.len() >= 3 && is_link(
        s.subrange(2, s.len() - 1),
    )
}

/// An opening bracket, with or without a backslash before it.
pub open spec fn is_opening(s: Seq<char>) -> bool {
    &&& s.len() == 1 || s.len() == 2 && s[0] == '\\'
    &&& s.last() == '[' || s.last() == '('
}

/// A closing bracket, with or without a backslash before it.
pub open spec fn is_closing(s: Seq<char>) -> bool {
    &&& s.len() == 1 || s.len() == 2 && s[0] == '\\'
    &&& s.last() == ']' || s.last() == ')'
}

/// Six to ten digits.
pub open spec fn is_id(s: Seq<char>) -> bool {
    6 <= s.len() <= 10 && number::all_digits(s)
}

/// In `t` a closing bracket stands from `e` up to `c`, and a space or nothing follows.
pub open spec fn closed_at(t: Seq<char>, e: int, c: int) -> bool {
    &&& e <= c <= t.len()
    &&& is_closing(t.subrange(e, c))
    &&& c == t.len() || t[c] == ' '
}

/// In `t` an ID stands from `d` up to `e`, and what marks it as one starts at `p`.
pub open spec fn id_at(style: Style, t: Seq<char>, p: int, d: int, e: int) -> bool {
    &&& 0 <= p <= d <= e <= t.len()
    &&& is_id(t.subrange(d, e))
    &&& match style {
        Style::Keyword => {
            &&& p == 0 || is_separator(t[p - 1])
            &&& is_label(t.subrange(p, d))
            &&& e == t.len() || !word_char(t[e])
        },
        Style::Bracketed => {
            &&& p == 0 || t[p - 1] == ' '
            &&& is_opening(t.subrange(p, d))
            &&& exists|c: int| closed_at(t, e, c)
        },
    }
}

/// An ID stands in `t`, and none is marked further left.
pub open spec fn leftmost_id_at(style: Style, t: Seq<char>, p: int, d: int, e: int) -> bool {
    &&& id_at(style, t, p, d, e)
    &&& forall|p2: int, d2: int, e2: int| id_at(style, t, p2, d2, e2) ==> p <= p2
}

/// The leftmost ID of a style in `t`.
pub open spec fn first_id(style: Style, t: Seq<char>) -> Option<Seq<char>> {
    if exists|p: int, d: int, e: int| leftmost_id_at(style, t, p, d, e) {
        let (p, d, e) = choose|p: int, d: int, e: int| leftmost_id_at(style, t, p, d, e);
        Some(t.subrange(d, e))
    } else {
        None
    }
}

/// The ID in a title: one after the keyword, or else one in brackets.
pub open spec fn level_id(t: Seq<char>) -> Option<Seq<char>> {
    match first_id(Style::Keyword, t) {
        Some(id) => Some(id),
        None => first_id(Style::Bracketed, t),
    }
}

/// [`regex::Regex::captures`] of a pattern of this module on a text, and what its first group
/// captured. For the two patterns of IDs it is what the syntax of regular expressions says of them:
/// the match that starts leftmost counts, `(?i)` folds case by Unicode's simple rules, and `\b`
/// after a digit asks that no word character follows. Which characters outside ASCII are word
/// characters is for [`WORD_PATTERN`] to say.
#[verifier::external_body]
fn capture(pattern: &str, text: &str) -> (r: Option<String>)
    requires
        pattern@ == KEYWORD_PATTERN@ || pattern@ == BRACKETED_PATTERN@ || pattern@
            == WORD_PATTERN@,
    ensures
        text::optional_string(r) == first_group(pattern@, text@),
        pattern@ == KEYWORD_PATTERN@ ==> text::optional_string(r) == first_id(
            Style::Keyword,
            text@,
        ),
        pattern@ == BRACKETED_PATTERN@ ==> text::optional_string(r) == first_id(
            Style::Bracketed,
            text@,
        ),
{
    let found = regex::Regex::new(pattern).unwrap().captures(text)?.get(1);
    found.map(|m| m.as_str().to_owned())
}

/// Scans the title of a post for the ID of a level.
pub fn find_level_id(title: &str) -> (r: Option<String>)
    ensures
        text::optional_string(r) == level_id(title@),
{
    match capture(KEYWORD_PATTERN, title) {
        Some(id) => Some(id),
        None => capture(BRACKETED_PATTERN, title),
    }
}

/// Where an ID is marked determines where it stands.
proof fn lemma_id_unique(style: Style, t: Seq<char>, p: int, d: int, e: int, d2: int, e2: int)
    requires
        id_at(style, t, p, d, e),
        id_at(style, t, p, d2, e2),
    ensures
        d == d2,
        e == e2,
{
    lemma_mark_reaches_id(style, t, p, d, e, d2, e2);
    lemma_mark_reaches_id(style, t, p, d2, e2, d, e);
    lemma_id_whole(style, t, p, d, e, e2);
    lemma_id_whole(style, t, p, d, e2, e);
}

/// No ID starts within what marks another.
proof fn lemma_mark_reaches_id(style: Style, t: Seq<char>, p: int, d: int, e: int, d2: int, e2: int)
    requires
        id_at(style, t, p, d, e),
        id_at(style, t, p, d2, e2),
    ensures
        d2 <= d,
{
    assert(t.subrange(d, e)[0] == t[d]);
    assert(number::is_digit(t.subrange(d, e)[0]));
    let mark = t.subrange(p, d2);
    let at = d - p;
    if d < d2 {
        assert(mark[at] == t[d]);
        if style is Keyword {
            assert(t.subrange(p, d).len() >= 2);
            if is_link(mark.skip(2)) {
                assert(mark.skip(2)[at - 2] == t[d]);
            } else if at < mark.len() - 1 {
                assert(mark.subrange(2, mark.len() - 1)[at - 2] == t[d]);
            }
        }
    }
}

/// An ID ends where its digits end.
proof fn lemma_id_whole(style: Style, t: Seq<char>, p: int, d: int, e: int, e2: int)
    requires
        id_at(style, t, p, d, e),
        id_at(style, t, p, d, e2),
    ensures
        e2 <= e,
{
    if e < e2 {
        assert(t.subrange(d, e2)[e - d] == t[e]);
        assert(number::is_digit(t.subrange(d, e2)[e - d]));
        if style is Bracketed {
            let c = choose|c: int| closed_at(t, e, c);
            assert(t.subrange(e, c)[0] == t[e]);
        }
    }
}

/// If an ID stands in a title, one of them is marked leftmost.
proof fn lemma_leftmost_exists(style: Style, t: Seq<char>, p: int, d: int, e: int)
    requires
        id_at(style, t, p, d, e),
    ensures
        exists|p2: int, d2: int, e2: int| leftmost_id_at(style, t, p2, d2, e2),
    decreases p,
{
    if !leftmost_id_at(style, t, p, d, e) {
        let (p2, d2, e2) = choose|p2: int, d2: int, e2: int|
            id_at(style, t, p2, d2, e2) && p2 < p;
        lemma_leftmost_exists(style, t, p2, d2, e2);
    }
}

/// The leftmost ID is the one that is found.
pub proof fn law_leftmost_id_found(style: Style, t: Seq<char>, p: int, d: int, e: int)
    requires
        leftmost_id_at(style, t, p, d, e),
    ensures
        first_id(style, t) == Some(t.subrange(d, e)),
{
    let (p2, d2, e2) = choose|p2: int, d2: int, e2: int| leftmost_id_at(style, t, p2, d2, e2);
    assert(p2 == p);
    lemma_id_unique(style, t, p, d, e, d2, e2);
}

/// An ID is found in a title exactly if one stands there, in either style.
pub proof fn law_id_found_iff_present(t: Seq<char>)
    ensures
        level_id(t) is Some <==> exists|style: Style, p: int, d: int, e: int|
            id_at(style, t, p, d, e),
{
    if exists|style: Style, p: int, d: int, e: int| id_at(style, t, p, d, e) {
        let (style, p, d, e) = choose|style: Style, p: int, d: int, e: int|
            id_at(style, t, p, d, e);
        lemma_leftmost_exists(style, t, p, d, e);
    }
    if first_id(Style::Keyword, t) is Some {
        let (p, d, e) = choose|p: int, d: int, e: int| leftmost_id_at(Style::Keyword, t, p, d, e);
        assert(id_at(Style::Keyword, t, p, d, e));
    } else if first_id(Style::Bracketed, t) is Some {
        let (p, d, e) = choose|p: int, d: int, e: int|
            leftmost_id_at(Style::Bracketed, t, p, d, e);
        assert(id_at(Style::Bracketed, t, p, d, e));
    }
}

/// `id` stands in `t` and is no part of a longer number.
pub open spec fn whole_number_in(id: Seq<char>, t: Seq<char>) -> bool {
    exists|d: int, e: int|
        {
            &&& 0 <= d <= e <= t.len()
            &&& id == #[trigger] t.subrange(d, e)
            &&& d == 0 || !number::is_digit(t[d - 1])
            &&& e == t.len() || !number::is_digit(t[e])
        }
}

/// An ID that is found consists of six to ten digits, and stands in the title as a number of its
/// own.
pub proof fn law_id_shape(t: Seq<char>)
    ensures
        level_id(t) matches Some(id) ==> is_id(id) && whole_number_in(id, t),
{
    if first_id(Style::Keyword, t) is Some {
        lemma_first_id_shape(Style::Keyword, t);
    } else {
        lemma_first_id_shape(Style::Bracketed, t);
    }
}

proof fn lemma_first_id_shape(style: Style, t: Seq<char>)
    ensures
        first_id(style, t) matches Some(id) ==> is_id(id) && whole_number_in(id, t),
{
    if let Some(id) = first_id(style, t) {
        let (p, d, e) = choose|p: int, d: int, e: int| leftmost_id_at(style, t, p, d, e);
        let mark = t.subrange(p, d);
        assert(mark.last() == t[d - 1]);
        if style is Keyword {
            if is_link(mark.skip(2)) && mark.len() > 2 {
                assert(mark.skip(2).last() == t[d - 1]);
            }
        } else {
            let c = choose|c: int| closed_at(t, e, c);
            assert(t.subrange(e, c)[0] == t[e]);
        }
        assert(id == t.subrange(d, e));
    }
}

/// An ID after the keyword comes before any in brackets, which counts only where there is none
/// after the keyword.
pub proof fn law_keyword_comes_first(t: Seq<char>, p: int, d: int, e: int)
    ensures
        id_at(Style::Keyword, t, p, d, e) ==> level_id(t) is Some && level_id(t) == first_id(
            Style::Keyword,
            t,
        ),
        (forall|p2: int, d2: int, e2: int| !id_at(Style::Keyword, t, p2, d2, e2)) ==> level_id(t)
            == first_id(Style::Bracketed, t),
{
    if id_at(Style::Keyword, t, p, d, e) {
        lemma_leftmost_exists(Style::Keyword, t, p, d, e);
    }
    if forall|p2: int, d2: int, e2: int| !id_at(Style::Keyword, t, p2, d2, e2) {
        assert forall|p2: int, d2: int, e2: int| !leftmost_id_at(
            Style::Keyword,
            t,
            p2,
            d2,
            e2,
        ) by {
            assert(!id_at(Style::Keyword, t, p2, d2, e2));
        }
    }
}

/// A title that consists of an ID in brackets, or of the keyword, a space and an ID, has that ID.
pub proof fn law_plain_titles(id: Seq<char>)
    requires
        6 <= id.len() <= 10,
        forall|i: int| 0 <= i < id.len() ==> '0' <= #[trigger] id[i] <= '9',
    ensures
        level_id(seq!['i', 'd', ' '] + id) == Some(id),
        level_id(seq!['['] + id + seq![']']) == Some(id),
        level_id(seq!['('] + id + seq![')']) == Some(id),
{
    let t = seq!['i', 'd', ' '] + id;
    let n = t.len() as int;
    assert(t.subrange(3, n) == id);
    assert(t.subrange(0, 3) == seq!['i', 'd', ' ']);
    assert(t.subrange(0, 3).subrange(2, 2).len() == 0);
    assert(id_at(Style::Keyword, t, 0, 3, n));
    assert(leftmost_id_at(Style::Keyword, t, 0, 3, n));
    law_leftmost_id_found(Style::Keyword, t, 0, 3, n);
    lemma_plain_brackets(id, '[', ']');
    lemma_plain_brackets(id, '(', ')');
}

proof fn lemma_plain_brackets(id: Seq<char>, open: char, close: char)
    requires
        is_id(id),
        open == '[' && close == ']' || open == '(' && close == ')',
    ensures
        level_id(seq![open] + id + seq![close]) == Some(id),
{
    let t = seq![open] + id + seq![close];
    let n = t.len() as int;
    assert(t.subrange(1, n - 1) == id);
    assert(t.subrange(0, 1) == seq![open]);
    assert(t.subrange(n - 1, n) == seq![close]);
    assert(closed_at(t, n - 1, n));
    assert(id_at(Style::Bracketed, t, 0, 1, n - 1));
    assert(leftmost_id_at(Style::Bracketed, t, 0, 1, n - 1));
    law_leftmost_id_found(Style::Bracketed, t, 0, 1, n - 1);
    assert forall|p: int, d: int, e: int| !id_at(Style::Keyword, t, p, d, e) by {
        if id_at(Style::Keyword, t, p, d, e) {
            assert(t.subrange(p, d)[0] == t[p]);
            assert(0 < p < n - 1 ==> t[p] == id[p - 1]);
            assert(0 < p < n - 1 ==> number::is_digit(id[p - 1]));
        }
    }
    law_keyword_comes_first(t, 0, 0, 0);
}

} // verus!
