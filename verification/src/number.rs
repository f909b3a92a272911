//! Decimal numerals: writing them, grouping their digits and reading them back.
use crate::text::{chars_of, string_of};
use vstd::prelude::*;

verus! {

/// An ASCII decimal digit.
pub open spec fn is_digit(c: char) -> bool {
    '0' <= c <= '9'
}

/// A text of ASCII decimal digits only.
pub open spec fn all_digits(s: Seq<char>) -> bool {
    forall|i: int| 0 <= i < s.len() ==> is_digit(#[trigger] s[i])
}

/// The digit that stands for `d`.
pub open spec fn digit_char(d: nat) -> char {
    (48 + d) as char
}

/// The number that a text of digits stands for.
pub open spec fn digits_value(s: Seq<char>) -> nat
    decreases s.len(),
{
    if s.len() == 0 {
        0
    } else {
        digits_value(s.take(s.len() - 1)) * 10 + (s[s.len() - 1] as nat - 48) as nat
    }
}

/// The decimal numeral of `n`, without leading zeros.
pub open spec fn decimal(n: nat) -> Seq<char>
    decreases n,
{
    if n < 10 {
        seq![digit_char(n)]
    } else {
        decimal(n / 10).push(digit_char(n % 10))
    }
}

/// `s` with a comma before every group of three characters, counted from the end.
pub open spec fn with_commas(s: Seq<char>) -> Seq<char>
    decreases s.len(),
{
    if s.len() <= 3 {
        s
    } else {
        with_commas(s.take(s.len() - 3)) + seq![','] + s.skip(s.len() - 3)
    }
}

/// The value of an unsigned numeral: digits, with or without a `+` before them.
pub open spec fn unsigned_value(s: Seq<char>) -> Option<nat> {
    let body = if s.len() > 0 && s[0] == '+' {
        s.skip(1)
    } else {
        s
    };
    if body.len() > 0 && all_digits(body) {
        Some(digits_value(body))
    } else {
        None
    }
}

/// The value of an unsigned numeral if it is at most `max`.
pub open spec fn bounded_value(s: Seq<char>, max: nat) -> Option<nat> {
    match unsigned_value(s) {
        Some(n) if n <= max => Some(n),
        _ => None,
    }
}

/// The value of a signed numeral: digits, with or without a `+` or a `-` before them.
pub open spec fn signed_value(s: Seq<char>) -> Option<int> {
    if s.len() > 0 && s[0] == '-' {
        let body = s.skip(1);
        if body.len() > 0 && all_digits(body) {
            Some(-digits_value(body))
        } else {
            None
        }
    } else {
        match unsigned_value(s) {
            Some(n) => Some(n as int),
            None => None,
        }
    }
}

/// The value of a signed numeral if it fits in an `i64`.
pub open spec fn i64_value(s: Seq<char>) -> Option<int> {
    match signed_value(s) {
        Some(n) if i64::MIN <= n <= i64::MAX => Some(n),
        _ => None,
    }
}

/// The digit that stands for `d`.
fn digit(d: u64) -> (c: char)
    requires
        d < 10,
    ensures
        c == digit_char(d as nat),
{
    (48u8 + d as u8) as char
}

/// The digits of `n`.
fn digits_of(n: u64) -> (r: Vec<char>)
    ensures
        r@ == decimal(n as nat),
    decreases n,
{
    if n < 10 {
        let mut r: Vec<char> = Vec::new();
        r.push(digit(n));
        assert(r@ == decimal(n as nat));
        r
    } else {
        let mut r = digits_of(n / 10);
        r.push(digit(n % 10));
        r
    }
}

/// Writes `n` in decimal.
pub fn decimal_string(n: u64) -> (r: String)
    ensures
        r@ == decimal(n as nat),
{
    let digits = digits_of(n);
    assert(digits@.subrange(0, digits@.len() as int) == digits@);
    string_of(&digits, 0, digits.len())
}

/// Writes `n` in decimal with thousands separators: 1234567 becomes `1,234,567`.
pub fn format_number(n: u64) -> (r: String)
    ensures
        r@ == with_commas(decimal(n as nat)),
{
    let digits = digits_of(n);
    let len: usize = digits.len();
    proof {
        lemma_decimal(n as nat);
    }
    let head: usize = if len % 3 == 0 {
        3
    } else {
        len % 3
    };
    let mut r = string_of(&digits, 0, head);
    let mut done: usize = head;
    assert(digits@.take(head as int) == digits@.subrange(0, head as int));
    while done < len
        invariant
            len == digits@.len(),
            0 < done <= len,
            (len - done) % 3 == 0,
            r@ == with_commas(digits@.take(done as int)),
        decreases len - done,
    {
        let group = string_of(&digits, done, done + 3);
        r.push(',');
        r.append(group.as_str());
        proof {
            let now = digits@.take(done + 3);
            assert(now.take(done as int) == digits@.take(done as int));
            assert(now.skip(done as int) == digits@.subrange(done as int, done + 3));
            assert(r@ == with_commas(digits@.take(done as int)) + seq![','] + now.skip(
                done as int,
            ));
        }
        done = done + 3;
    }
    assert(digits@.take(len as int) == digits@);
    r
}

/// Reads digits from `from` on as a number that is at most `max`.
fn parse_digits(chars: &Vec<char>, from: usize, max: u64) -> (r: Option<u64>)
    requires
        from <= chars@.len(),
    ensures
        ({
            let body = chars@.skip(from as int);
            match r {
                Some(n) => body.len() > 0 && all_digits(body) && digits_value(body) == n && n
                    <= max,
                None => !(body.len() > 0 && all_digits(body) && digits_value(body) <= max),
            }
        }),
{
    let ghost body = chars@.skip(from as int);
    let len: usize = chars.len();
    if from == len {
        return None;
    }
    let mut value: u128 = 0;
    let mut i: usize = from;
    while i < len
        invariant
            from <= i <= len == chars@.len(),
            body == chars@.skip(from as int),
            forall|j: int| 0 <= j < i - from ==> is_digit(#[trigger] body[j]),
            value == digits_value(body.take(i - from)),
            value <= max,
        decreases len - i,
    {
        let c = chars[i];
        assert(body[i - from] == c);
        if c < '0' || c > '9' {
            assert(!is_digit(body[i - from]));
            return None;
        }
        proof {
            let now = body.take(i - from + 1);
            assert(now.take(i - from) == body.take(i - from));
        }
        value = value * 10 + (c as u32 - 48) as u128;
        i = i + 1;
        if value > max as u128 {
            proof {
                if all_digits(body) {
                    lemma_digits_value_grows(body, i - from);
                }
            }
            return None;
        }
    }
    assert(body.take(len - from) == body);
    Some(value as u64)
}

/// Reads an unsigned numeral that is at most `max`.
fn parse_bounded(s: &str, max: u64) -> (r: Option<u64>)
    ensures
        match r {
            Some(n) => bounded_value(s@, max as nat) == Some(n as nat) && n <= max,
            None => bounded_value(s@, max as nat) is None,
        },
{
    let chars = chars_of(s);
    assert(chars@.skip(0) == chars@);
    if chars.len() > 0 && chars[0] == '+' {
        parse_digits(&chars, 1, max)
    } else {
        parse_digits(&chars, 0, max)
    }
}

/// Reads a `u64`.
pub fn parse_u64(s: &str) -> (r: Option<u64>)
    ensures
        match r {
            Some(n) => bounded_value(s@, u64::MAX as nat) == Some(n as nat),
            None => bounded_value(s@, u64::MAX as nat) is None,
        },
{
    parse_bounded(s, u64::MAX)
}

/// Reads a `u32`.
pub fn parse_u32(s: &str) -> (r: Option<u32>)
    ensures
        match r {
            Some(n) => bounded_value(s@, u32::MAX as nat) == Some(n as nat),
            None => bounded_value(s@, u32::MAX as nat) is None,
        },
{
    match parse_bounded(s, u32::MAX as u64) {
        Some(n) => Some(n as u32),
        None => None,
    }
}

/// Reads a `usize`.
pub fn parse_usize(s: &str) -> (r: Option<usize>)
    ensures
        match r {
            Some(n) => bounded_value(s@, usize::MAX as nat) == Some(n as nat),
            None => bounded_value(s@, usize::MAX as nat) is None,
        },
{
    match parse_bounded(s, usize::MAX as u64) {
        Some(n) => Some(n as usize),
        None => None,
    }
}

/// Reads an `i64`.
pub fn parse_i64(s: &str) -> (r: Option<i64>)
    ensures
        match r {
            Some(n) => i64_value(s@) == Some(n as int),
            None => i64_value(s@) is None,
        },
{
    let chars = chars_of(s);
    if chars.len() > 0 && chars[0] == '-' {
        match parse_digits(&chars, 1, 0x8000_0000_0000_0000) {
            Some(n) => Some((0 - n as i128) as i64),
            None => None,
        }
    } else {
        match parse_bounded(s, i64::MAX as u64) {
            Some(n) => Some(n as i64),
            None => None,
        }
    }
}

/// A numeral consists of digits, at least one.
pub proof fn lemma_decimal(n: nat)
    ensures
        decimal(n).len() > 0,
        all_digits(decimal(n)),
        digits_value(decimal(n)) == n,
    decreases n,
{
    if n >= 10 {
        lemma_decimal(n / 10);
        let s = decimal(n);
        assert(s.take(s.len() - 1) == decimal(n / 10));
    } else {
        let s = decimal(n);
        assert(s.take(0).len() == 0);
        assert(digits_value(s.take(0)) == 0);
    }
}

/// More digits never make the number smaller.
proof fn lemma_digits_value_grows(s: Seq<char>, k: int)
    requires
        0 <= k <= s.len(),
        all_digits(s),
    ensures
        digits_value(s.take(k)) <= digits_value(s),
    decreases s.len(),
{
    if k < s.len() {
        let cut = s.take(s.len() - 1);
        lemma_digits_value_grows(cut, k);
        assert(cut.take(k) == s.take(k));
    } else {
        assert(s.take(k) == s);
    }
}

/// Reading a numeral gives back the number that was written.
pub proof fn law_decimal_read_back(n: nat)
    ensures
        unsigned_value(decimal(n)) == Some(n),
{
    lemma_decimal(n);
    assert(is_digit(decimal(n)[0]));
}

/// Thousands separators add nothing but commas: without them the digits are what they were.
pub proof fn law_commas_only(s: Seq<char>)
    requires
        !s.contains(','),
    ensures
        with_commas(s).filter(|c: char| c != ',') == s,
    decreases s.len(),
{
    let keep = |c: char| c != ',';
    if s.len() <= 3 {
        lemma_filter_all(s, keep);
    } else {
        let head = s.take(s.len() - 3);
        let tail = s.skip(s.len() - 3);
        assert(!head.contains(',')) by {
            if head.contains(',') {
                let i = head.index_of(',');
                assert(s[i] == ',');
            }
        }
        assert(!tail.contains(',')) by {
            if tail.contains(',') {
                let i = tail.index_of(',');
                assert(s[i + s.len() - 3] == ',');
            }
        }
        law_commas_only(head);
        lemma_filter_all(tail, keep);
        Seq::filter_distributes_over_add(with_commas(head) + seq![','], tail, keep);
        Seq::filter_distributes_over_add(with_commas(head), seq![','], keep);
        assert(seq![','].filter(keep) == Seq::<char>::empty()) by {
            reveal_with_fuel(Seq::filter, 2);
            assert(seq![','].last() == ',');
            assert(seq![','].drop_last() == Seq::<char>::empty());
        }
        assert(head + Seq::<char>::empty() + tail == s);
    }
}

pub(crate) proof fn lemma_filter_all(s: Seq<char>, keep: spec_fn(char) -> bool)
    requires
        forall|i: int| 0 <= i < s.len() ==> keep(#[trigger] s[i]),
    ensures
        s.filter(keep) == s,
    decreases s.len(),
{
    reveal(Seq::filter);
    if s.len() > 0 {
        lemma_filter_all(s.drop_last(), keep);
        assert(s.drop_last().push(s.last()) == s);
    }
}

/// Thousands separators stand exactly before every third character from the end: a comma is
/// followed by a multiple of four characters less one, and no other character is a comma.
pub proof fn law_commas_placed(s: Seq<char>, i: int)
    requires
        !s.contains(','),
        0 <= i < with_commas(s).len(),
    ensures
        with_commas(s)[i] == ',' <==> (with_commas(s).len() - i) % 4 == 0,
    decreases s.len(),
{
    let out = with_commas(s);
    if s.len() <= 3 {
        assert(s.contains(s[i]));
    } else {
        let head = s.take(s.len() - 3);
        let before = with_commas(head);
        if i < before.len() {
            assert(!head.contains(',')) by {
                if head.contains(',') {
                    let k = head.index_of(',');
                    assert(s[k] == ',');
                }
            }
            law_commas_placed(head, i);
            assert(out[i] == before[i]);
        } else if i > before.len() {
            assert(out[i] == s[s.len() - 3 + (i - before.len() - 1)]);
            assert(s.contains(out[i]));
        }
    }
}

/// A further digit makes a number ten times as large and adds its own value.
pub proof fn law_further_digit(s: Seq<char>, c: char)
    requires
        '0' <= c <= '9',
    ensures
        digits_value(Seq::empty()) == 0,
        digits_value(s.push(c)) == 10 * digits_value(s) + (c as int - '0' as int),
{
    assert(s.push(c).take(s.len() as int) == s);
}

/// A numeral has at least one digit, nothing but digits and no zero in front, unless it is zero
/// itself, and its digits are worth the number.
pub proof fn law_decimal_canonical(n: nat)
    ensures
        decimal(n).len() > 0,
        forall|i: int| 0 <= i < decimal(n).len() ==> '0' <= #[trigger] decimal(n)[i] <= '9',
        decimal(n)[0] == '0' ==> n == 0 && decimal(n).len() == 1,
        digits_value(decimal(n)) == n,
    decreases n,
{
    lemma_decimal(n);
    assert forall|i: int| 0 <= i < decimal(n).len() implies '0' <= #[trigger] decimal(n)[i]
        <= '9' by {
        assert(is_digit(decimal(n)[i]));
    }
    if n >= 10 {
        law_decimal_canonical(n / 10);
        assert(decimal(n)[0] == decimal(n / 10)[0]);
    }
}

/// Different numbers have different numerals.
pub proof fn law_decimal_injective(a: nat, b: nat)
    requires
        decimal(a) == decimal(b),
    ensures
        a == b,
{
    lemma_decimal(a);
    lemma_decimal(b);
}

/// `body` is a text of digits, at least one.
pub open spec fn is_numeral(body: Seq<char>) -> bool {
    body.len() > 0 && forall|i: int| 0 <= i < body.len() ==> '0' <= #[trigger] body[i] <= '9'
}

/// A text has a value up to `max` exactly if it consists of digits, with or without a `+` before
/// them, that are worth the value.
pub proof fn law_bounded_value(s: Seq<char>, max: nat, v: nat)
    ensures
        bounded_value(s, max) == Some(v) <==> v <= max && exists|body: Seq<char>|
            #![trigger is_numeral(body)]
            is_numeral(body) && (s == body || s == seq!['+'] + body) && digits_value(body) == v,
{
    let rest = s.skip(1);
    if bounded_value(s, max) == Some(v) {
        if s.len() > 0 && s[0] == '+' {
            assert(s == seq!['+'] + rest);
            assert(is_numeral(rest)) by {
                assert forall|i: int| 0 <= i < rest.len() implies '0' <= #[trigger] rest[i]
                    <= '9' by {
                    assert(is_digit(rest[i]));
                }
            }
        } else {
            assert(is_numeral(s)) by {
                assert forall|i: int| 0 <= i < s.len() implies '0' <= #[trigger] s[i] <= '9' by {
                    assert(is_digit(s[i]));
                }
            }
        }
    }
    if v <= max && exists|body: Seq<char>|
        #![trigger is_numeral(body)]
        is_numeral(body) && (s == body || s == seq!['+'] + body) && digits_value(body) == v {
        let body = choose|body: Seq<char>|
            #![trigger is_numeral(body)]
            is_numeral(body) && (s == body || s == seq!['+'] + body) && digits_value(body) == v;
        if s == body {
            assert('0' <= body[0] <= '9');
        } else {
            assert(s[0] == '+');
            assert(rest == body);
        }
        assert(all_digits(body));
    }
}

/// A numeral is read if and only if it is not too large.
pub proof fn law_numeral_up_to(n: nat, max: nat)
    ensures
        bounded_value(decimal(n), max) == (if n <= max {
            Some(n)
        } else {
            None
        }),
        bounded_value(seq!['+'] + decimal(n), max) == (if n <= max {
            Some(n)
        } else {
            None
        }),
{
    lemma_decimal(n);
    assert(is_digit(decimal(n)[0]));
    assert((seq!['+'] + decimal(n)).skip(1) == decimal(n));
}

/// Signed numerals are read if and only if they fit.
pub proof fn law_signed_numeral_read(n: nat)
    ensures
        i64_value(decimal(n)) == (if n < 0x8000_0000_0000_0000 {
            Some(n as int)
        } else {
            None
        }),
        i64_value(seq!['-'] + decimal(n)) == (if n <= 0x8000_0000_0000_0000 {
            Some(-(n as int))
        } else {
            None
        }),
{
    lemma_decimal(n);
    assert(is_digit(decimal(n)[0]));
    assert((seq!['-'] + decimal(n)).skip(1) == decimal(n));
}

/// A text has a signed value exactly if it consists of digits, with or without a sign before them,
/// that are worth the value, and the value fits.
pub proof fn law_i64_value(s: Seq<char>, v: int)
    ensures
        i64_value(s) == Some(v) <==> i64::MIN <= v <= i64::MAX && exists|body: Seq<char>|
            #![trigger is_numeral(body)]
            is_numeral(body) && ((s == body || s == seq!['+'] + body) && v == digits_value(body)
                || s == seq!['-'] + body && v == -(digits_value(body) as int)),
{
    let rest = s.skip(1);
    assert(all_digits(rest) && rest.len() > 0 ==> is_numeral(rest)) by {
        if all_digits(rest) {
            assert forall|i: int| 0 <= i < rest.len() implies '0' <= #[trigger] rest[i] <= '9' by {
                assert(is_digit(rest[i]));
            }
        }
    }
    assert(all_digits(s) && s.len() > 0 ==> is_numeral(s)) by {
        if all_digits(s) {
            assert forall|i: int| 0 <= i < s.len() implies '0' <= #[trigger] s[i] <= '9' by {
                assert(is_digit(s[i]));
            }
        }
    }
    if s.len() > 0 {
        assert(s == seq![s[0]] + rest);
    }
    if exists|body: Seq<char>|
        #![trigger is_numeral(body)]
        is_numeral(body) && ((s == body || s == seq!['+'] + body) && v == digits_value(body) || s
            == seq!['-'] + body && v == -(digits_value(body) as int)) {
        let body = choose|body: Seq<char>|
            #![trigger is_numeral(body)]
            is_numeral(body) && ((s == body || s == seq!['+'] + body) && v == digits_value(body)
                || s == seq!['-'] + body && v == -(digits_value(body) as int));
        assert(all_digits(body));
        assert('0' <= body[0] <= '9');
        if s != body {
            assert(s[0] == '+' || s[0] == '-');
            assert(rest == body);
        }
    }
}

/// A numeral with thousands separators reads back as the number, once the commas are left out.
pub proof fn law_grouped_read_back(n: nat)
    ensures
        with_commas(decimal(n)).filter(|c: char| c != ',') == decimal(n),
        digits_value(with_commas(decimal(n)).filter(|c: char| c != ',')) == n,
{
    lemma_decimal(n);
    assert(!decimal(n).contains(',')) by {
        if decimal(n).contains(',') {
            let i = decimal(n).index_of(',');
            assert(is_digit(decimal(n)[i]));
        }
    }
    law_commas_only(decimal(n));
}

} // verus!
