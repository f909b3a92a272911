//! Text as a sequence of characters: comparing, trimming, splitting and searching.
use vstd::prelude::*;

verus! {

/// [`String::push`] appends one character to the end of the string.
pub assume_specification[ String::push ](s: &mut String, c: char)
    ensures
        final(s)@ == old(s)@.push(c),
;

/// The characters with the Unicode property `White_Space`.
pub open spec fn white_space(c: char) -> bool {
    ||| '\u{9}' <= c <= '\u{d}'
    ||| c == ' '
    ||| c == '\u{85}'
    ||| c == '\u{a0}'
    ||| c == '\u{1680}'
    ||| '\u{2000}' <= c <= '\u{200a}'
    ||| c == '\u{2028}'
    ||| c == '\u{2029}'
    ||| c == '\u{202f}'
    ||| c == '\u{205f}'
    ||| c == '\u{3000}'
}

/// [`char::is_whitespace`] tells whether a character has the Unicode property `White_Space`,
/// which is spelled out by [`white_space`].
pub assume_specification[ char::is_whitespace ](c: char) -> (r: bool)
    ensures
        r == white_space(c),
;

/// The texts of a sequence of strings.
pub open spec fn texts(v: Seq<String>) -> Seq<Seq<char>> {
    Seq::new(v.len(), |i: int| v[i]@)
}

/// An optional text.
pub open spec fn optional(s: Option<&str>) -> Option<Seq<char>> {
    match s {
        Some(t) => Some(t@),
        None => None,
    }
}

/// The text of an optional string.
pub open spec fn optional_string(s: Option<String>) -> Option<Seq<char>> {
    match s {
        Some(t) => Some(t@),
        None => None,
    }
}

/// `s` without its leading white space.
pub open spec fn trim_start(s: Seq<char>) -> Seq<char>
    decreases s.len(),
{
    if s.len() > 0 && white_space(s[0]) {
        trim_start(s.skip(1))
    } else {
        s
    }
}

/// `s` without its trailing white space.
pub open spec fn trim_end(s: Seq<char>) -> Seq<char>
    decreases s.len(),
{
    if s.len() > 0 && white_space(s[s.len() - 1]) {
        trim_end(s.take(s.len() - 1))
    } else {
        s
    }
}

/// `s` without the white space at either end.
pub open spec fn trimmed(s: Seq<char>) -> Seq<char> {
    trim_end(trim_start(s))
}

/// `sep` stands in `s` at position `i`.
pub open spec fn occurs_at(s: Seq<char>, sep: Seq<char>, i: int) -> bool {
    &&& 0 <= i
    &&& i + sep.len() <= s.len()
    &&& s.subrange(i, i + sep.len()) == sep
}

/// The first position from `from` on at which `sep` stands in `s`.
pub open spec fn first_occurrence(s: Seq<char>, sep: Seq<char>, from: int) -> Option<int>
    decreases s.len() + 1 - from,
{
    if from < 0 || from + sep.len() > s.len() {
        None
    } else if occurs_at(s, sep, from) {
        Some(from)
    } else {
        first_occurrence(s, sep, from + 1)
    }
}

/// What lies between the occurrences of `sep` in `s`, which are taken from left to right without
/// overlap. There is always at least one piece.
pub open spec fn pieces(s: Seq<char>, sep: Seq<char>) -> Seq<Seq<char>>
    decreases s.len(),
    via pieces_decreases
{
    match first_occurrence(s, sep, 0) {
        Some(i) if sep.len() > 0 => seq![s.take(i)] + pieces(s.skip(i + sep.len()), sep),
        _ => seq![s],
    }
}

#[via_fn]
proof fn pieces_decreases(s: Seq<char>, sep: Seq<char>) {
    lemma_first_occurrence(s, sep, 0);
}

/// The pieces put together again with `sep` between them.
pub open spec fn joined(parts: Seq<Seq<char>>, sep: Seq<char>) -> Seq<char>
    decreases parts.len(),
{
    if parts.len() == 0 {
        Seq::empty()
    } else if parts.len() == 1 {
        parts[0]
    } else {
        parts[0] + sep + joined(parts.skip(1), sep)
    }
}

/// [`first_occurrence`] yields an occurrence before which there is none, or there is none at all.
pub proof fn lemma_first_occurrence(s: Seq<char>, sep: Seq<char>, from: int)
    requires
        0 <= from,
    ensures
        match first_occurrence(s, sep, from) {
            Some(i) => {
                &&& from <= i
                &&& occurs_at(s, sep, i)
                &&& forall|j: int| from <= j < i ==> !occurs_at(s, sep, j)
            },
            None => forall|j: int| from <= j ==> !occurs_at(s, sep, j),
        },
    decreases s.len() + 1 - from,
{
    if from + sep.len() <= s.len() && !occurs_at(s, sep, from) {
        lemma_first_occurrence(s, sep, from + 1);
    }
}

/// Copies a text into a vector of its characters.
pub fn chars_of(s: &str) -> (r: Vec<char>)
    ensures
        r@ == s@,
{
    let mut r: Vec<char> = Vec::new();
    for c in it: s.chars()
        invariant
            r@ == it.seq().take(it.index()),
            it.seq() == s@,
    {
        r.push(c);
    }
    r
}

/// Copies the characters from `from` up to `to` into a string.
pub fn string_of(chars: &Vec<char>, from: usize, to: usize) -> (r: String)
    requires
        from <= to <= chars@.len(),
    ensures
        r@ == chars@.subrange(from as int, to as int),
{
    let mut r = String::new();
    let mut i: usize = from;
    while i < to
        invariant
            from <= i <= to <= chars@.len(),
            r@ == chars@.subrange(from as int, i as int),
        decreases to - i,
    {
        r.push(chars[i]);
        i = i + 1;
    }
    r
}

/// Whether two texts are equal.
pub fn same_text(a: &str, b: &str) -> (r: bool)
    ensures
        r == (a@ == b@),
{
    let xs = chars_of(a);
    let ys = chars_of(b);
    if xs.len() != ys.len() {
        return false;
    }
    let mut i: usize = 0;
    while i < xs.len()
        invariant
            i <= xs@.len(),
            xs@.len() == ys@.len(),
            forall|j: int| 0 <= j < i ==> xs@[j] == ys@[j],
            xs@ == a@,
            ys@ == b@,
        decreases xs@.len() - i,
    {
        if xs[i] != ys[i] {
            return false;
        }
        i = i + 1;
    }
    assert(xs@ == ys@);
    true
}

/// Removes the white space at either end.
pub fn trim(s: &str) -> (r: String)
    ensures
        r@ == trimmed(s@),
{
    let chars = chars_of(s);
    let mut from: usize = 0;
    assert(chars@.skip(0) == chars@);
    while from < chars.len() && chars[from].is_whitespace()
        invariant
            from <= chars@.len(),
            trim_start(chars@) == trim_start(chars@.skip(from as int)),
        decreases chars@.len() - from,
    {
        assert(chars@.skip(from as int).skip(1) == chars@.skip(from + 1));
        from = from + 1;
    }
    let ghost rest = chars@.skip(from as int);
    assert(trim_start(chars@) == rest);
    let mut to: usize = chars.len();
    assert(rest == chars@.subrange(from as int, to as int));
    while from < to && chars[to - 1].is_whitespace()
        invariant
            from <= to <= chars@.len(),
            trim_end(rest) == trim_end(chars@.subrange(from as int, to as int)),
        decreases to - from,
    {
        let ghost now = chars@.subrange(from as int, to as int);
        assert(now.take(now.len() - 1) == chars@.subrange(from as int, to - 1));
        to = to - 1;
    }
    string_of(&chars, from, to)
}

/// Whether `sep` stands in `chars` at position `i`.
fn stands_at(chars: &Vec<char>, sep: &Vec<char>, i: usize) -> (r: bool)
    requires
        i <= chars@.len(),
    ensures
        r == occurs_at(chars@, sep@, i as int),
{
    let len: usize = chars.len();
    if sep.len() > len - i {
        return false;
    }
    let mut k: usize = 0;
    while k < sep.len()
        invariant
            k <= sep@.len(),
            i + sep@.len() <= chars@.len() == len,
            forall|j: int| 0 <= j < k ==> chars@[i + j] == sep@[j],
        decreases sep@.len() - k,
    {
        if chars[i + k] != sep[k] {
            assert(chars@.subrange(i as int, i + sep@.len())[k as int] == chars@[i + k]);
            return false;
        }
        k = k + 1;
    }
    assert(chars@.subrange(i as int, i + sep@.len()) == sep@);
    true
}

/// The first position from `from` on at which `sep` stands in `chars`.
fn find_from(chars: &Vec<char>, sep: &Vec<char>, from: usize) -> (r: Option<usize>)
    requires
        from <= chars@.len(),
    ensures
        match r {
            Some(i) => first_occurrence(chars@, sep@, from as int) == Some(i as int),
            None => first_occurrence(chars@, sep@, from as int) is None,
        },
{
    let mut i: usize = from;
    while sep.len() <= chars.len() - i
        invariant
            from <= i <= chars@.len(),
            first_occurrence(chars@, sep@, from as int) == first_occurrence(
                chars@,
                sep@,
                i as int,
            ),
        decreases chars@.len() - i,
    {
        if stands_at(chars, sep, i) {
            return Some(i);
        }
        if i == chars.len() {
            assert(first_occurrence(chars@, sep@, i + 1) is None);
            return None;
        }
        i = i + 1;
    }
    None
}

/// Whether `needle` stands anywhere in `s`.
pub fn contains(s: &str, needle: &str) -> (r: bool)
    ensures
        r == exists|i: int| occurs_at(s@, needle@, i),
{
    let chars = chars_of(s);
    let sep = chars_of(needle);
    let found = find_from(&chars, &sep, 0);
    proof {
        lemma_first_occurrence(s@, needle@, 0);
    }
    found.is_some()
}

/// Searching the rest of a text finds what searching the text from there on finds.
proof fn lemma_first_occurrence_skip(s: Seq<char>, sep: Seq<char>, from: int, at: int)
    requires
        0 <= from,
        0 <= at,
        from + at <= s.len(),
    ensures
        match first_occurrence(s.skip(from), sep, at) {
            Some(i) => first_occurrence(s, sep, from + at) == Some(from + i),
            None => first_occurrence(s, sep, from + at) is None,
        },
    decreases s.len() - from - at,
{
    let rest = s.skip(from);
    if at + sep.len() <= rest.len() {
        assert(rest.subrange(at, at + sep.len()) == s.subrange(from + at, from + at + sep.len()));
        if !occurs_at(rest, sep, at) && from + at < s.len() {
            lemma_first_occurrence_skip(s, sep, from, at + 1);
        }
    }
}

/// Splits a text at every occurrence of `sep`.
pub fn split(s: &str, sep: &str) -> (r: Vec<String>)
    requires
        sep@.len() > 0,
    ensures
        texts(r@) == pieces(s@, sep@),
{
    let chars = chars_of(s);
    let sep = chars_of(sep);
    let mut r: Vec<String> = Vec::new();
    let mut from: usize = 0;
    assert(chars@.skip(0) == chars@);
    assert(texts(r@) + pieces(chars@, sep@) == pieces(chars@, sep@));
    let len: usize = chars.len();
    loop
        invariant_except_break
            from <= chars@.len() == len,
            sep@.len() > 0,
            texts(r@) + pieces(chars@.skip(from as int), sep@) == pieces(chars@, sep@),
        ensures
            texts(r@) == pieces(chars@, sep@),
        decreases chars@.len() - from,
    {
        let ghost before = r@;
        proof {
            lemma_first_occurrence_skip(chars@, sep@, from as int, 0);
            lemma_first_occurrence(chars@, sep@, from as int);
        }
        match find_from(&chars, &sep, from) {
            Some(i) => {
                r.push(string_of(&chars, from, i));
                let ghost rest = chars@.skip(from as int);
                let ghost piece = rest.take(i - from);
                let ghost tail = pieces(chars@.skip(i + sep@.len()), sep@);
                assert(piece == chars@.subrange(from as int, i as int));
                assert(rest.skip(i - from + sep@.len()) == chars@.skip(i + sep@.len()));
                assert(texts(r@) == texts(before).push(piece));
                assert(texts(r@) + tail == texts(before) + (seq![piece] + tail));
                from = i + sep.len();
            },
            None => {
                r.push(string_of(&chars, from, chars.len()));
                assert(chars@.skip(from as int) == chars@.subrange(
                    from as int,
                    chars@.len() as int,
                ));
                assert(texts(r@) == texts(before) + seq![chars@.skip(from as int)]);
                break;
            },
        }
    }
    r
}

/// Splitting loses nothing: the pieces of `s` with `sep` between them are `s` again.
pub proof fn law_split_joined(s: Seq<char>, sep: Seq<char>)
    requires
        sep.len() > 0,
    ensures
        pieces(s, sep).len() > 0,
        joined(pieces(s, sep), sep) == s,
    decreases s.len(),
{
    lemma_first_occurrence(s, sep, 0);
    if let Some(i) = first_occurrence(s, sep, 0) {
        let rest = s.skip(i + sep.len());
        law_split_joined(rest, sep);
        let parts = pieces(s, sep);
        assert(parts.skip(1) == pieces(rest, sep));
        assert(s == s.take(i) + s.subrange(i, i + sep.len()) + rest);
    }
}

/// Splitting is complete: no piece of `s` holds `sep`.
pub proof fn law_split_complete(s: Seq<char>, sep: Seq<char>, k: int, i: int)
    requires
        sep.len() > 0,
        0 <= k < pieces(s, sep).len(),
    ensures
        !occurs_at(pieces(s, sep)[k], sep, i),
    decreases s.len(),
{
    lemma_first_occurrence(s, sep, 0);
    match first_occurrence(s, sep, 0) {
        Some(at) => {
            let rest = s.skip(at + sep.len());
            if k > 0 {
                assert(pieces(s, sep)[k] == pieces(rest, sep)[k - 1]);
                law_split_complete(rest, sep, k - 1, i);
            } else if occurs_at(s.take(at), sep, i) {
                assert(s.take(at).subrange(i, i + sep.len()) == s.subrange(i, i + sep.len()));
                assert(occurs_at(s, sep, i));
            }
        },
        None => {
            assert(!occurs_at(s, sep, i));
        },
    }
}

/// Where a character stands for the first time.
proof fn lemma_first_char(s: Seq<char>, c: char, n: int)
    requires
        0 <= n <= s.len(),
        forall|j: int| 0 <= j < n ==> s[j] != c,
        n < s.len() ==> s[n] == c,
    ensures
        first_occurrence(s, seq![c], 0) == (if n < s.len() {
            Some(n)
        } else {
            None
        }),
{
    let sep = seq![c];
    lemma_first_occurrence(s, sep, 0);
    assert forall|j: int| 0 <= j < s.len() implies (#[trigger] occurs_at(s, sep, j) <==> s[j]
        == c) by {
        assert(s.subrange(j, j + 1) == seq![s[j]]);
        if occurs_at(s, sep, j) {
            assert(seq![s[j]][0] == sep[0]);
        }
    }
    if n < s.len() {
        assert(occurs_at(s, sep, n));
    }
}

/// Splitting undoes joining: parts that do not hold the separating character come back as they
/// were.
pub proof fn law_joined_split(parts: Seq<Seq<char>>, c: char)
    requires
        parts.len() > 0,
        forall|k: int| 0 <= k < parts.len() ==> !(#[trigger] parts[k]).contains(c),
    ensures
        pieces(joined(parts, seq![c]), seq![c]) == parts,
    decreases parts.len(),
{
    let sep = seq![c];
    let s = joined(parts, sep);
    let first = parts[0];
    let n = first.len() as int;
    assert(!parts[0].contains(c));
    assert forall|j: int| 0 <= j < n implies first[j] != c by {
        assert(first.contains(first[j]));
    }
    if parts.len() == 1 {
        lemma_first_char(s, c, n);
        assert(pieces(s, sep) == parts);
    } else {
        let tail = parts.skip(1);
        let rest = joined(tail, sep);
        assert(s == first + sep + rest);
        assert(s[n] == c);
        lemma_first_char(s, c, n);
        assert(s.take(n) == first);
        assert(s.skip(n + 1) == rest);
        assert forall|k: int| 0 <= k < tail.len() implies !(#[trigger] tail[k]).contains(c) by {
            assert(tail[k] == parts[k + 1]);
        }
        law_joined_split(tail, c);
        assert(pieces(s, sep) == seq![first] + pieces(rest, sep));
        assert(seq![first] + tail == parts);
    }
}

/// A separator does not stand where its first character does not.
proof fn lemma_not_at(s: Seq<char>, sep: Seq<char>, j: int)
    requires
        sep.len() > 0,
        0 <= j < s.len(),
        s[j] != sep[0],
    ensures
        !occurs_at(s, sep, j),
{
    if occurs_at(s, sep, j) {
        assert(s.subrange(j, j + sep.len())[0] == s[j]);
    }
}

/// Where a separator stands for the first time, if its first character does not come up before.
proof fn lemma_first_at(s: Seq<char>, sep: Seq<char>, n: int)
    requires
        sep.len() > 0,
        occurs_at(s, sep, n),
        forall|j: int| 0 <= j < n ==> s[j] != sep[0],
    ensures
        first_occurrence(s, sep, 0) == Some(n),
{
    lemma_first_occurrence(s, sep, 0);
    if let Some(i) = first_occurrence(s, sep, 0) {
        if i < n {
            lemma_not_at(s, sep, i);
        }
    }
}

/// The same for text that is put together.
proof fn lemma_first_separator(first: Seq<char>, sep: Seq<char>, rest: Seq<char>)
    requires
        sep.len() > 0,
        !first.contains(sep[0]),
    ensures
        first_occurrence(first + sep + rest, sep, 0) == Some(first.len() as int),
{
    let s = first + sep + rest;
    law_inserted_text_found(first, sep, rest);
    assert forall|j: int| 0 <= j < first.len() implies s[j] != sep[0] by {
        assert(first.contains(first[j]));
    }
    lemma_first_at(s, sep, first.len() as int);
}

/// A separator does not stand in text that does not hold its first character.
proof fn lemma_no_separator(s: Seq<char>, sep: Seq<char>)
    requires
        sep.len() > 0,
        !s.contains(sep[0]),
    ensures
        first_occurrence(s, sep, 0) is None,
{
    lemma_first_occurrence(s, sep, 0);
    if let Some(i) = first_occurrence(s, sep, 0) {
        assert(s.contains(s[i]));
        lemma_not_at(s, sep, i);
    }
}

/// Splitting undoes joining with longer separators too: parts that do not hold the first character
/// of the separator come back as they were.
pub proof fn law_joined_split_at(parts: Seq<Seq<char>>, sep: Seq<char>)
    requires
        sep.len() > 0,
        parts.len() > 0,
        forall|k: int| 0 <= k < parts.len() ==> !(#[trigger] parts[k]).contains(sep[0]),
    ensures
        pieces(joined(parts, sep), sep) == parts,
    decreases parts.len(),
{
    let s = joined(parts, sep);
    let first = parts[0];
    let n = first.len() as int;
    assert(!parts[0].contains(sep[0]));
    if parts.len() == 1 {
        lemma_no_separator(s, sep);
        assert(pieces(s, sep) == parts);
    } else {
        let tail = parts.skip(1);
        let rest = joined(tail, sep);
        assert(s == first + sep + rest);
        lemma_first_separator(first, sep, rest);
        assert(s.take(n) == first);
        assert(s.skip(n + sep.len()) == rest);
        assert forall|k: int| 0 <= k < tail.len() implies !(#[trigger] tail[k]).contains(
            sep[0],
        ) by {
            assert(tail[k] == parts[k + 1]);
        }
        law_joined_split_at(tail, sep);
        assert(pieces(s, sep) == seq![first] + pieces(rest, sep));
        assert(seq![first] + tail == parts);
    }
}

/// Text in which the separator does not stand is one piece.
pub proof fn law_split_whole(s: Seq<char>, sep: Seq<char>)
    requires
        sep.len() > 0,
        forall|a: Seq<char>, b: Seq<char>| s != #[trigger] (a + sep + b),
    ensures
        pieces(s, sep) == seq![s],
{
    lemma_first_occurrence(s, sep, 0);
    if let Some(i) = first_occurrence(s, sep, 0) {
        law_occurs_at(s, sep, i);
        assert(s == s.take(i) + sep + s.skip(i + sep.len()));
    }
}

/// What stands before the first separator is the first piece, and the other pieces are those of
/// what stands after it.
pub proof fn law_split_step(first: Seq<char>, sep: Seq<char>, rest: Seq<char>)
    requires
        sep.len() > 0,
        forall|j: int|
            0 <= j < first.len() ==> #[trigger] (first + sep + rest).subrange(j, j + sep.len())
                != sep,
    ensures
        pieces(first + sep + rest, sep) == seq![first] + pieces(rest, sep),
{
    let s = first + sep + rest;
    let n = first.len() as int;
    lemma_first_occurrence(s, sep, 0);
    assert(s.subrange(n, n + sep.len()) == sep);
    assert(occurs_at(s, sep, n));
    if let Some(i) = first_occurrence(s, sep, 0) {
        if i < n {
            assert(s.subrange(i, i + sep.len()) == sep);
        }
    }
    assert(s.take(n) == first);
    assert(s.skip(n + sep.len()) == rest);
}

/// A character splits a text where it first stands.
pub proof fn law_split_at_char(first: Seq<char>, c: char, rest: Seq<char>)
    requires
        !first.contains(c),
    ensures
        pieces(first, seq![c]) == seq![first],
        pieces(first + seq![c] + rest, seq![c]) == seq![first] + pieces(rest, seq![c]),
{
    let sep = seq![c];
    let s = first + sep + rest;
    lemma_no_separator(first, sep);
    lemma_first_separator(first, sep, rest);
    assert(s.take(first.len() as int) == first);
    assert(s.skip(first.len() as int + sep.len()) == rest);
}

/// A text stands in another exactly if it is there with something before and after it.
pub proof fn law_occurs_at(s: Seq<char>, sep: Seq<char>, i: int)
    ensures
        occurs_at(s, sep, i) <==> 0 <= i && i + sep.len() <= s.len() && s == s.take(i) + sep
            + s.skip(i + sep.len()),
{
    if 0 <= i && i + sep.len() <= s.len() {
        assert(s == s.take(i) + s.subrange(i, i + sep.len()) + s.skip(i + sep.len()));
        let t = s.take(i) + sep + s.skip(i + sep.len());
        assert(t.subrange(i, i + sep.len()) == sep);
    }
}

/// A text that is put into another is found there.
pub proof fn law_inserted_text_found(before: Seq<char>, sep: Seq<char>, after: Seq<char>)
    ensures
        occurs_at(before + sep + after, sep, before.len() as int),
{
    let s = before + sep + after;
    assert(s.subrange(before.len() as int, (before.len() + sep.len()) as int) == sep);
}

/// Trimmed text neither starts nor ends with white space.
pub proof fn law_trimmed_ends(s: Seq<char>)
    ensures
        trimmed(s).len() > 0 ==> !white_space(trimmed(s)[0]) && !white_space(trimmed(s).last()),
{
    lemma_trim_start(s);
    lemma_trim_end(trim_start(s));
}

/// Trimming changes nothing in trimmed text.
pub proof fn law_trimmed_idempotent(s: Seq<char>)
    ensures
        trimmed(trimmed(s)) == trimmed(s),
{
    law_trimmed_ends(s);
}

/// Only white space is trimmed: it surrounds what is left.
pub proof fn law_trimmed_surrounded(s: Seq<char>)
    ensures
        exists|from: int, to: int|
            {
                &&& 0 <= from <= to <= s.len()
                &&& trimmed(s) == #[trigger] s.subrange(from, to)
                &&& forall|i: int| 0 <= i < from || to <= i < s.len() ==> white_space(s[i])
            },
{
    lemma_trim_start(s);
    let rest = trim_start(s);
    lemma_trim_end(rest);
    let from = s.len() - rest.len();
    let to = from + trimmed(s).len();
    assert(s.subrange(from, to) == trimmed(s));
    assert forall|i: int| 0 <= i < from || to <= i < s.len() implies white_space(s[i]) by {
        if i >= to {
            assert(rest[i - from] == s[i]);
        }
    }
}

proof fn lemma_trim_start(s: Seq<char>)
    ensures
        trim_start(s).len() <= s.len(),
        trim_start(s) == s.skip(s.len() - trim_start(s).len()),
        trim_start(s).len() > 0 ==> !white_space(trim_start(s)[0]),
        forall|i: int| 0 <= i < s.len() - trim_start(s).len() ==> white_space(s[i]),
    decreases s.len(),
{
    if s.len() > 0 && white_space(s[0]) {
        lemma_trim_start(s.skip(1));
        let t = trim_start(s);
        assert(s.skip(s.len() - t.len()) == s.skip(1).skip(s.len() - 1 - t.len()));
        assert forall|i: int| 0 <= i < s.len() - t.len() implies white_space(s[i]) by {
            if i > 0 {
                assert(s.skip(1)[i - 1] == s[i]);
            }
        }
    }
}

proof fn lemma_trim_end(s: Seq<char>)
    ensures
        trim_end(s).len() <= s.len(),
        trim_end(s) == s.take(trim_end(s).len() as int),
        trim_end(s).len() > 0 ==> !white_space(trim_end(s).last()),
        forall|i: int| trim_end(s).len() <= i < s.len() ==> white_space(s[i]),
    decreases s.len(),
{
    if s.len() > 0 && white_space(s[s.len() - 1]) {
        let cut = s.take(s.len() - 1);
        lemma_trim_end(cut);
        let t = trim_end(s);
        assert(s.take(t.len() as int) == cut.take(t.len() as int));
        assert forall|i: int| t.len() <= i < s.len() implies white_space(s[i]) by {
            if i < cut.len() {
                assert(cut[i] == s[i]);
            }
        }
    }
}

/// The texts of strings are their own texts, in order, and those of optional ones likewise.
pub proof fn law_texts(v: Seq<String>, i: int, s: String, t: &str)
    ensures
        texts(v).len() == v.len(),
        0 <= i < v.len() ==> texts(v)[i] == v[i]@,
        optional_string(Some(s)) == Some(s@),
        optional_string(None) is None,
        optional(Some(t)) == Some(t@),
        optional(None) is None,
{
}

} // verus!
