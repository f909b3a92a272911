use rgd_zbot::reddit::find_level_id;

fn matches(title: &str) -> bool {
    find_level_id(title).is_some()
}

fn extracts(title: &str) -> String {
    find_level_id(title).expect("expected a match")
}

// Pattern 1: explicit "id" keyword.

#[test]
fn id_space() {
    assert_eq!(extracts("id 12345678"), "12345678");
}

#[test]
fn id_colon() {
    assert_eq!(extracts("ID: 12345678"), "12345678");
}

#[test]
fn id_equals() {
    assert_eq!(extracts("id=12345678"), "12345678");
}

#[test]
fn id_is_keyword() {
    assert_eq!(extracts("id is 12345678"), "12345678");
}

#[test]
fn id_uppercase() {
    assert_eq!(extracts("ID 12345678"), "12345678");
}

#[test]
fn id_mid_sentence() {
    assert_eq!(extracts("my level id 12345678 is cool"), "12345678");
}

#[test]
fn id_after_punctuation() {
    assert_eq!(extracts("(id 12345678)"), "12345678");
    assert_eq!(extracts("[id 12345678]"), "12345678");
    assert_eq!(extracts("great level! id 12345678"), "12345678");
    assert_eq!(extracts("level.id 12345678"), "12345678");
    assert_eq!(extracts("-id 12345678"), "12345678");
}

#[test]
fn id_at_start() {
    assert_eq!(extracts("id12345678 is a cool level"), "12345678");
}

// Pattern 2: bracketed.

#[test]
fn bracketed_square() {
    assert_eq!(extracts("[12345678]"), "12345678");
}

#[test]
fn bracketed_paren() {
    assert_eq!(extracts("(12345678)"), "12345678");
}

#[test]
fn bracketed_mid_sentence() {
    assert_eq!(extracts("check this level [12345678] out"), "12345678");
}

#[test]
fn bracketed_escaped() {
    // Reddit sometimes backslash-escapes brackets in older post titles.
    assert_eq!(extracts(r"\[12345678\]"), "12345678");
}

// Digit boundaries.

#[test]
fn exactly_six_digits() {
    assert_eq!(extracts("id 123456"), "123456");
}

#[test]
fn exactly_ten_digits() {
    assert_eq!(extracts("id 1234567890"), "1234567890");
}

#[test]
fn five_digits_no_match() {
    assert!(!matches("id 12345"));
}

#[test]
fn eleven_digits_no_match() {
    // \b prevents a partial match — the greedy engine consumes 10 digits, then fails
    // the word-boundary check because the 11th character is still a digit.
    assert!(!matches("id 12345678901"));
}

// False positives.

#[test]
fn id_inside_word_no_match() {
    assert!(!matches("valid 12345678"));
    assert!(!matches("said 12345678"));
    assert!(!matches("rapid 12345678"));
    assert!(!matches("squid 12345678"));
    assert!(!matches("void12345678"));
}

#[test]
fn bracketed_no_space_prefix_no_match() {
    assert!(!matches("abc[12345678]"));
    assert!(!matches("abc(12345678)"));
}

#[test]
fn bare_number_no_match() {
    assert!(!matches("12345678"));
    assert!(!matches("I got 12345678 points"));
    assert!(!matches("chapter 12345678"));
}

#[test]
fn long_number_in_url_no_match() {
    assert!(!matches("https://example.com/profile/12345678901"));
}

#[test]
fn bracketed_no_closing_no_match() {
    assert!(!matches("[12345678"));
    assert!(!matches("(12345678"));
}

#[test]
fn bracketed_followed_by_non_space_no_match() {
    // Trailing (?:$| ) rejects anything that isn't end-of-string or a space.
    assert!(!matches("[12345678]x"));
    assert!(!matches("[12345678],"));
}

// Order, case and word boundaries.

#[test]
fn keyword_comes_before_brackets() {
    assert_eq!(extracts("[11111111] and id 22222222"), "22222222");
}

#[test]
fn leftmost_id_wins() {
    assert_eq!(extracts("id 11111111 or id 22222222"), "11111111");
    assert_eq!(extracts("[11111111] [22222222]"), "11111111");
    assert_eq!(extracts("id 12345 id 22222222"), "22222222");
}

#[test]
fn mixed_case_keyword() {
    assert_eq!(extracts("iD Is 12345678"), "12345678");
    assert_eq!(extracts("id i\u{17f} 12345678"), "12345678");
}

#[test]
fn word_boundary_after_id() {
    assert!(!matches("id 12345678x"));
    assert!(!matches("id 12345678_"));
    assert!(!matches("id 12345678\u{e9}"));
    assert_eq!(extracts("id 12345678\u{2014}nice"), "12345678");
    assert_eq!(extracts("id 12345678, nice"), "12345678");
}

#[test]
fn brackets_may_differ() {
    assert_eq!(extracts("[123456)"), "123456");
    assert_eq!(extracts("level \\(1234567890] here"), "1234567890");
    assert!(!matches("[12345]"));
    assert!(!matches("[12345678901]"));
}

#[test]
fn found_id_is_a_number_of_its_own() {
    let title = "before 1 [1234567] after 2";
    let id = extracts(title);
    assert!(6 <= id.len() && id.len() <= 10);
    assert!(id.chars().all(|c| c.is_ascii_digit()));
    assert!(title.contains(&id));
}

#[test]
fn empty_title() {
    assert!(!matches(""));
}

// Every short title made of these parts, against the wording of what counts as an ID.

const PARTS: [&str; 16] = [
    " ", "id", "ID", "iD", ":", "=", " is", "[", "\\", "(", ")", "]", "x", "\u{e9}", "123456", "78901",
];

fn digits(s: &[char]) -> bool {
    6 <= s.len() && s.len() <= 10 && s.iter().all(|c| c.is_ascii_digit())
}

fn labels(s: &[char]) -> bool {
    let s: String = s.iter().collect::<String>().to_lowercase();
    ["id", "id ", "id is", "id is ", "id:", "id: ", "id=", "id= "].contains(&s.as_str())
}

fn opens(s: &[char]) -> bool {
    let s: String = s.iter().collect();
    ["[", "(", "\\[", "\\("].contains(&s.as_str())
}

fn closes(s: &[char]) -> bool {
    let s: String = s.iter().collect();
    ["]", ")", "\\]", "\\)", "] ", ") ", "\\] ", "\\) "]
        .iter()
        .any(|close| if close.ends_with(' ') { s.starts_with(close) } else { s == *close })
}

fn expected(title: &str) -> Option<String> {
    let t: Vec<char> = title.chars().collect();
    let n = t.len();
    for keyword in [true, false] {
        for p in 0..=n {
            for d in p..=n {
                for e in d..=n {
                    let marked = if keyword {
                        (p == 0 || " .?!-([".contains(t[p - 1]))
                            && labels(&t[p..d])
                            && (e == n || !(t[e].is_alphanumeric() || t[e] == '_'))
                    } else {
                        (p == 0 || t[p - 1] == ' ') && opens(&t[p..d]) && closes(&t[e..])
                    };
                    if marked && digits(&t[d..e]) {
                        return Some(t[d..e].iter().collect());
                    }
                }
            }
        }
    }
    None
}

#[test]
fn short_titles() {
    for a in PARTS {
        for b in PARTS {
            for c in PARTS {
                let title = format!("{a}{b}{c}");
                assert_eq!(find_level_id(&title), expected(&title), "{title:?}");
            }
        }
    }
}

#[test]
fn labelled_titles() {
    for before in ["", " ", "x", "-", "(", "id 1", "\u{e9}"] {
        for label in ["id", "id ", "ID:", "id= ", "id is", "id is ", "id  ", "id:: ", "[", "\\(", " ["] {
            for number in ["12345", "123456", "1234567890", "12345678901"] {
                for after in ["", " ", "]", "] ", "\\) x", "]x", "x", ".", "_", "\u{e9}", " id 654321"] {
                    let title = format!("{before}{label}{number}{after}");
                    assert_eq!(find_level_id(&title), expected(&title), "{title:?}");
                }
            }
        }
    }
}
