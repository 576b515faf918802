use samovar::lines::{is_whitespace, lines, split_whitespace, trim};
use samovar::number::{decimal, parse_u32};
use samovar::order::key_at_most;
use samovar::text::{contains, find, from_chars, join, replace, split, to_chars};

fn chars(s: &str) -> Vec<char> {
    s.chars().collect()
}

fn strings(parts: Vec<Vec<char>>) -> Vec<String> {
    parts.into_iter().map(|p| p.into_iter().collect()).collect()
}

const SAMPLES: [&str; 24] = [
    "",
    "a",
    "abc",
    "a,b,c",
    ",",
    ",,",
    "aaa",
    "aaaa",
    "a::b:::c",
    "GET / HTTP/1.1",
    "  lead and trail  ",
    "\t tab\u{b}vt\u{c}ff ",
    "a\nb",
    "a\n",
    "\n",
    "a\r\n\r\nb",
    "a\rb\r",
    "a\r",
    "\r\n",
    "a\n\nb\n",
    "h\u{e9}llo w\u{f6}rld",
    "\u{2003}em\u{3000}wide\u{a0}nbsp\u{85}nel",
    "key +/+/+ value",
    "http://user:pw@host:8080/a/b?q=x=1&y=2",
];

const PATTERNS: [&str; 12] = [",", "aa", "::", ":", "/", "\r\n\r\n", ": ", "?q=", " +/+/+ ", "a", "\u{e9}", "://"];

#[test]
fn chars_round_trip() {
    for s in SAMPLES {
        assert_eq!(to_chars(s), chars(s));
        assert_eq!(from_chars(&chars(s)), s);
    }
}

#[test]
fn split_agrees_with_std() {
    for s in SAMPLES {
        for p in PATTERNS {
            let ours = strings(split(&chars(s), &chars(p)));
            let theirs: Vec<String> = s.split(p).map(|x| x.to_string()).collect();
            assert_eq!(ours, theirs, "split {:?} at {:?}", s, p);
        }
    }
}

#[test]
fn split_keeps_empty_pieces() {
    assert_eq!(strings(split(&chars("aaa"), &chars("aa"))), vec!["", "a"]);
    assert_eq!(strings(split(&chars(",,"), &chars(","))), vec!["", "", ""]);
    assert_eq!(strings(split(&chars(""), &chars(","))), vec![""]);
}

#[test]
fn find_gives_first_match() {
    assert_eq!(find(&chars("abcabc"), &chars("bc"), 0), Some(1));
    assert_eq!(find(&chars("abcabc"), &chars("bc"), 2), Some(4));
    assert_eq!(find(&chars("abcabc"), &chars("bc"), 5), None);
    assert_eq!(find(&chars("abc"), &chars(""), 0), Some(0));
    assert_eq!(find(&chars("abc"), &chars(""), 3), Some(3));
    assert_eq!(find(&chars("abc"), &chars(""), 4), None);
    assert_eq!(find(&chars("ab"), &chars("abc"), 0), None);
}

#[test]
fn contains_agrees_with_std() {
    for s in SAMPLES {
        for p in PATTERNS {
            assert_eq!(contains(&chars(s), &chars(p)), s.contains(p), "{:?} in {:?}", p, s);
        }
        assert!(contains(&chars(s), &chars("")));
    }
}

#[test]
fn replace_agrees_with_std() {
    for s in SAMPLES {
        for p in PATTERNS {
            let ours: String = replace(&chars(s), &chars(p), &chars("<>")).into_iter().collect();
            assert_eq!(ours, s.replace(p, "<>"), "replace {:?} in {:?}", p, s);
        }
    }
}

#[test]
fn join_puts_separator_between() {
    let parts = vec![chars("a"), chars(""), chars("bc")];
    let joined: String = join(&parts, &chars(", ")).into_iter().collect();
    assert_eq!(joined, "a, , bc");
    let none: Vec<Vec<char>> = vec![];
    assert_eq!(join(&none, &chars("/")), Vec::<char>::new());
    assert_eq!(join(&vec![chars("x")], &chars("/")), chars("x"));
}

#[test]
fn lines_agree_with_std() {
    for s in SAMPLES {
        let ours = strings(lines(&chars(s)));
        let theirs: Vec<String> = s.lines().map(|x| x.to_string()).collect();
        assert_eq!(ours, theirs, "lines of {:?}", s);
    }
}

#[test]
fn lines_edge_cases() {
    assert_eq!(strings(lines(&chars(""))), Vec::<String>::new());
    assert_eq!(strings(lines(&chars("\n"))), vec![""]);
    assert_eq!(strings(lines(&chars("a\r\n\r\nb"))), vec!["a", "", "b"]);
    assert_eq!(strings(lines(&chars("a\r"))), vec!["a\r"]);
}

#[test]
fn words_agree_with_std() {
    for s in SAMPLES {
        let ours = strings(split_whitespace(&chars(s)));
        let theirs: Vec<String> = s.split_whitespace().map(|x| x.to_string()).collect();
        assert_eq!(ours, theirs, "words of {:?}", s);
    }
}

#[test]
fn trim_agrees_with_std() {
    for s in SAMPLES {
        let ours: String = trim(&chars(s)).into_iter().collect();
        assert_eq!(ours, s.trim(), "trim of {:?}", s);
    }
    assert_eq!(trim(&chars(" \t\n ")), Vec::<char>::new());
}

#[test]
fn whitespace_agrees_with_std_for_every_char() {
    let mut code: u32 = 0;
    while code <= 0x10FFFF {
        if let Some(c) = char::from_u32(code) {
            assert_eq!(is_whitespace(c), c.is_whitespace(), "U+{:04X}", code);
        }
        code += 1;
    }
}

#[test]
fn parse_u32_agrees_with_std() {
    let texts = [
        "80", "+80", "-1", "", "+", "-", "0", "00080", "4294967295", "4294967296", "42949672950",
        "99999999999999999999", "8a", "a8", " 80", "80 ", "+-1", "++1", "\u{663}", "1_000", "0x10",
    ];
    for t in texts {
        assert_eq!(parse_u32(&chars(t)), t.parse::<u32>().ok(), "parse {:?}", t);
    }
    assert_eq!(parse_u32(&chars("8080")), Some(8080));
    assert_eq!(parse_u32(&chars("4294967296")), None);
}

#[test]
fn decimal_agrees_with_std() {
    for n in [0usize, 1, 7, 9, 10, 11, 99, 100, 12345, 4294967295, usize::MAX] {
        let ours: String = decimal(n).into_iter().collect();
        assert_eq!(ours, n.to_string());
    }
}

#[test]
fn decimal_is_read_back() {
    for n in [0u32, 3, 10, 404, 65535, u32::MAX] {
        assert_eq!(parse_u32(&decimal(n as usize)), Some(n));
    }
}

#[test]
fn key_order_agrees_with_string_order() {
    let keys = [
        "", "A", "Content-Length", "Content-Type", "Date", "Server", "a", "ab", "abc", "b", "date",
        "X-\u{e9}", "X-z", "\u{10348}", "\u{ffff}",
    ];
    for a in keys {
        for b in keys {
            assert_eq!(key_at_most(a, b), a <= b, "{:?} <= {:?}", a, b);
        }
    }
}

#[test]
fn empty_pattern_cuts_nothing() {
    assert_eq!(strings(split(&chars("abc"), &chars(""))), vec!["abc"]);
    assert_eq!(strings(split(&chars(""), &chars(""))), vec![""]);
    let same: String = replace(&chars("abc"), &chars(""), &chars("x")).into_iter().collect();
    assert_eq!(same, "abc");
}
