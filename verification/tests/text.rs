use static_rock::text::{
    chars_of, decode_chars, find_in, is_blank, matches_at, split_in, split_once_in, string_of,
};

fn chars(s: &str) -> Vec<char> {
    s.chars().collect()
}

fn texts(pieces: Vec<&[char]>) -> Vec<String> {
    pieces.into_iter().map(|p| p.iter().collect()).collect()
}

#[test]
fn chars_and_back() {
    assert_eq!(chars_of("a\u{e9}\u{65e5}\u{1f600}z"), vec!['a', '\u{e9}', '\u{65e5}', '\u{1f600}', 'z']);
    assert_eq!(chars_of(""), Vec::<char>::new());
    assert_eq!(string_of(&['o', 'k', '\u{e9}']), "ok\u{e9}");
    assert_eq!(string_of(&[]), "");
    assert_eq!(string_of(&chars_of("round trip")), "round trip");
}

#[test]
fn decoding_utf8() {
    assert_eq!(decode_chars(b"abc"), Some(vec!['a', 'b', 'c']));
    assert_eq!(decode_chars(&[0xE6, 0x97, 0xA5, 0x21]), Some(vec!['\u{65e5}', '!']));
    assert_eq!(decode_chars(b""), Some(vec![]));
    assert_eq!(decode_chars(&[0x80]), None);
    assert_eq!(decode_chars(&[0xE6, 0x97]), None);
    assert_eq!(decode_chars(&[0xC0, 0xAF]), None);
    assert_eq!(decode_chars(&[0xED, 0xA0, 0x80]), None);
}

#[test]
fn pattern_at_an_index() {
    let s = chars("abcabc");
    assert!(matches_at(&s, &chars("bc"), 1));
    assert!(matches_at(&s, &chars("bc"), 4));
    assert!(!matches_at(&s, &chars("bc"), 0));
    assert!(!matches_at(&s, &chars("bc"), 5));
    assert!(!matches_at(&s, &chars("bc"), 6));
    assert!(!matches_at(&s, &chars("bc"), usize::MAX));
    assert!(matches_at(&s, &[], 6));
    assert!(!matches_at(&s, &[], 7));
    assert!(!matches_at(&chars("a"), &chars("ab"), 0));
}

#[test]
fn first_occurrence() {
    assert_eq!(find_in(&chars("a: b: c"), &chars(": ")), Some(1));
    assert_eq!(find_in(&chars("abc"), &chars("c")), Some(2));
    assert_eq!(find_in(&chars("abc"), &chars("abc")), Some(0));
    assert_eq!(find_in(&chars("abc"), &chars("abcd")), None);
    assert_eq!(find_in(&chars("abc"), &chars("x")), None);
    assert_eq!(find_in(&chars(""), &chars("x")), None);
    assert_eq!(find_in(&chars("abc"), &[]), Some(0));
    assert_eq!(find_in(&chars("\r\r\n"), &chars("\r\n")), Some(1));
}

#[test]
fn cut_once() {
    let s = chars("k=v=w");
    let (head, tail) = split_once_in(&s, &['=']).unwrap();
    assert_eq!(string_of(head), "k");
    assert_eq!(string_of(tail), "v=w");
    assert!(split_once_in(&s, &['&']).is_none());
    let t = chars("=");
    let (head, tail) = split_once_in(&t, &['=']).unwrap();
    assert!(head.is_empty() && tail.is_empty());
}

#[test]
fn cut_everywhere() {
    assert_eq!(texts(split_in(&chars("a b c"), &[' '])), ["a", "b", "c"]);
    assert_eq!(texts(split_in(&chars("a  b "), &[' '])), ["a", "", "b", ""]);
    assert_eq!(texts(split_in(&chars(""), &[' '])), [""]);
    assert_eq!(texts(split_in(&chars(" "), &[' '])), ["", ""]);
    assert_eq!(texts(split_in(&chars("abc"), &[' '])), ["abc"]);
    assert_eq!(texts(split_in(&chars("l1\r\nl2\r\n\r\nl4"), &['\r', '\n'])), ["l1", "l2", "", "l4"]);
    assert_eq!(texts(split_in(&chars("a\rb\nc\n\rd"), &['\r', '\n'])), ["a\rb\nc\n\rd"]);
    assert_eq!(texts(split_in(&chars("aaa"), &['a', 'a'])), ["", "a"]);
    assert_eq!(texts(split_in(&chars("abc"), &[])), ["abc"]);
}

#[test]
fn cut_as_std_cuts() {
    for s in ["", "a", "a&b", "&", "&&", "a&&b&", "x=1&y=2&", "\r\n", "a\r\n\r\nb", "\r\r\n\n"] {
        for pat in ["&", "\r\n", " ", ": "] {
            let expected: Vec<String> = s.split(pat).map(|p| p.to_string()).collect();
            assert_eq!(texts(split_in(&chars(s), &chars(pat))), expected);
        }
    }
}

#[test]
fn blank_texts() {
    assert!(is_blank(&[]));
    assert!(is_blank(&chars(" \t\r\n\u{b}\u{c}\u{85}\u{a0}\u{1680}\u{2000}\u{200a}\u{2028}\u{2029}\u{202f}\u{205f}\u{3000}")));
    assert!(!is_blank(&chars("  x ")));
    assert!(!is_blank(&chars("\u{200b}")));
    assert!(!is_blank(&chars("\u{feff}")));
    assert!(!is_blank(&chars("\u{8}")));
}
