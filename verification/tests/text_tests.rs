use autoraise_rs::text::{
    chars_of, contains_chars, contains_str, is_whitespace, parse_u32_chars, split_at_char,
    split_lines, split_once_at, text_of, trim_chars,
};

fn cs(s: &str) -> Vec<char> {
    s.chars().collect()
}

fn strings(v: &[Vec<char>]) -> Vec<String> {
    v.iter().map(|x| x.iter().collect()).collect()
}

#[test]
fn whitespace_follows_unicode() {
    assert!(is_whitespace(' '));
    assert!(is_whitespace('\t'));
    assert!(is_whitespace('\u{a0}'));
    assert!(is_whitespace('\u{3000}'));
    assert!(!is_whitespace('a'));
    assert!(!is_whitespace('\u{200b}'));
    for c in ['\u{85}', '\u{1680}', '\u{2005}', '\u{2028}', '\u{202f}', '\u{205f}', 'x', '0'] {
        assert_eq!(is_whitespace(c), c.is_whitespace());
    }
}

#[test]
fn trim_removes_both_ends() {
    let t = trim_chars(&cs("  \u{a0}ws 1 \t\n"));
    assert_eq!(t, cs("ws 1"));
    assert_eq!(trim_chars(&cs("   ")), Vec::<char>::new());
    assert_eq!(trim_chars(&cs("")), Vec::<char>::new());
    assert_eq!(trim_chars(&cs("abc")), cs("abc"));
}

#[test]
fn lines_match_str_lines() {
    for s in ["", "a", "a\n", "a\n\n", "\n", "a\r\nb", "a\rb\n", "x\r", "1\n2\n3"] {
        let ours = strings(&split_lines(&cs(s)));
        let theirs: Vec<String> = s.lines().map(|l| l.to_string()).collect();
        assert_eq!(ours, theirs, "lines of {:?}", s);
    }
}

#[test]
fn split_matches_str_split() {
    for s in ["", ",", "a,b", "a,,b,", " a , b "] {
        let ours = strings(&split_at_char(&cs(s), ','));
        let theirs: Vec<String> = s.split(',').map(|l| l.to_string()).collect();
        assert_eq!(ours, theirs, "split of {:?}", s);
    }
}

#[test]
fn split_once_at_first_separator() {
    let (head, rest) = split_once_at(&cs("12\tws\tx"), '\t');
    assert_eq!(head, cs("12"));
    assert_eq!(rest, Some(cs("ws\tx")));
    let (head, rest) = split_once_at(&cs("12"), '\t');
    assert_eq!(head, cs("12"));
    assert_eq!(rest, None);
    let (head, rest) = split_once_at(&cs("\t"), '\t');
    assert_eq!(head, Vec::<char>::new());
    assert_eq!(rest, Some(Vec::new()));
}

#[test]
fn substring_search() {
    assert!(contains_chars(&cs("error: Unknown flag"), &cs("Unknown")));
    assert!(!contains_chars(&cs("unknown"), &cs("Unknown")));
    assert!(contains_chars(&cs("abc"), &cs("")));
    assert!(!contains_chars(&cs("ab"), &cs("abc")));
    assert!(contains_str(&cs("x unrecognized y"), "unrecognized"));
    assert!(contains_chars(&cs("aab"), &cs("ab")));
}

#[test]
fn parse_u32_matches_str_parse() {
    for s in ["0", "42", "+7", "007", "4294967295", "4294967296", "-1", "", "+", "++1", " 1", "1a", "99999999999999999999"] {
        assert_eq!(parse_u32_chars(&cs(s)), s.parse::<u32>().ok(), "parse of {:?}", s);
    }
}

#[test]
fn chars_and_lossy_text() {
    assert_eq!(chars_of("héllo"), cs("héllo"));
    assert_eq!(text_of(&b"ok\xffz".to_vec()), cs("ok\u{fffd}z"));
    assert_eq!(text_of(&"wörk".as_bytes().to_vec()), cs("wörk"));
}
