use snazy::number::{decimal, parse_byte};
use snazy::search::{contains, find, find_char, replace, rfind_char, split, split_once, starts_with};
use snazy::space::{blank, is_whitespace, lines, pad, trim, trim_end, trim_start};
use snazy::text::{chars_of, same_text, str_eq, string_of};
use snazy::utf8::{char_width, index_at, offset_of, slice_bytes, str_byte_len, tail_bytes};

fn cs(s: &str) -> Vec<char> {
    s.chars().collect()
}

fn st(v: &[char]) -> String {
    v.iter().collect()
}

const SAMPLES: [&str; 14] = [
    "",
    " ",
    "a",
    "abc",
    "  padded  ",
    "\t tab\n",
    "aaa",
    "abababab",
    "héllo wörld",
    "日本語 テキスト",
    "\u{a0}nbsp\u{2003}",
    "line one\nline two\r\nline three\r",
    "\n\n",
    "a,b,,c,",
];

#[test]
fn chars_round_trip() {
    for s in SAMPLES {
        let v = chars_of(s);
        assert_eq!(v, cs(s));
        assert_eq!(string_of(&v), s);
    }
}

#[test]
fn equality_is_by_characters() {
    for a in SAMPLES {
        for b in SAMPLES {
            assert_eq!(str_eq(a, b), a == b);
            assert_eq!(same_text(&cs(a), &cs(b)), a == b);
        }
    }
}

#[test]
fn white_space_is_what_std_calls_white_space() {
    for c in '\0'..=char::MAX {
        assert_eq!(is_whitespace(c), c.is_whitespace(), "{:?}", c);
    }
}

#[test]
fn widths_are_those_of_utf8() {
    for c in '\0'..=char::MAX {
        assert_eq!(char_width(c), c.len_utf8(), "{:?}", c);
    }
}

#[test]
fn trimming_is_that_of_std() {
    for s in SAMPLES {
        assert_eq!(st(&trim(&cs(s))), s.trim());
        assert_eq!(st(&trim_start(&cs(s))), s.trim_start());
        assert_eq!(st(&trim_end(&cs(s))), s.trim_end());
        assert_eq!(blank(&cs(s)), s.trim().is_empty());
    }
}

#[test]
fn padding_counts_characters() {
    assert_eq!(st(&pad(&cs("ab"), 5)), "ab   ");
    assert_eq!(st(&pad(&cs("héllo"), 8)), format!("{:<8}", "héllo"));
    assert_eq!(st(&pad(&cs("abcdef"), 3)), "abcdef");
    assert_eq!(st(&pad(&cs(""), 0)), "");
    assert_eq!(st(&pad(&cs(""), 2)), "  ");
}

#[test]
fn lines_are_those_of_std() {
    for s in SAMPLES {
        let ours: Vec<String> = lines(&cs(s)).iter().map(|l| st(l)).collect();
        let theirs: Vec<String> = s.lines().map(|l| l.to_string()).collect();
        assert_eq!(ours, theirs, "{:?}", s);
    }
}

#[test]
fn finding_is_that_of_std() {
    let needles = ["", "a", "ab", "b", "aa", "l", "テ", "\n", "zz", " "];
    for s in SAMPLES {
        for n in needles {
            let char_index = s.find(n).map(|b| s[..b].chars().count());
            assert_eq!(find(&cs(s), &cs(n)), char_index, "{:?} in {:?}", n, s);
            assert_eq!(contains(&cs(s), &cs(n)), s.contains(n));
            assert_eq!(starts_with(&cs(s), &cs(n)), s.starts_with(n));
        }
        for c in ['a', 'l', ' ', '\n', 'ö'] {
            assert_eq!(find_char(&cs(s), c), s.find(c).map(|b| s[..b].chars().count()));
            assert_eq!(rfind_char(&cs(s), c), s.rfind(c).map(|b| s[..b].chars().count()));
        }
    }
}

#[test]
fn replacing_is_that_of_std() {
    let pairs = [("a", "b"), ("ab", "x"), ("aa", "a"), ("", "-"), ("l", ""), ("é", "e"), ("b", "bb")];
    for s in SAMPLES {
        for (from, to) in pairs {
            assert_eq!(
                st(&replace(&cs(s), &cs(from), &cs(to))),
                s.replace(from, to),
                "{:?} -> {:?} in {:?}",
                from,
                to,
                s
            );
        }
    }
}

#[test]
fn splitting_is_that_of_std() {
    for s in SAMPLES {
        for sep in [',', 'a', ' ', '\n'] {
            let ours: Vec<String> = split(&cs(s), sep).iter().map(|p| st(p)).collect();
            let theirs: Vec<String> = s.split(sep).map(|p| p.to_string()).collect();
            assert_eq!(ours, theirs);
            let once = split_once(&cs(s), sep).map(|(a, b)| (st(&a), st(&b)));
            let theirs = s.split_once(sep).map(|(a, b)| (a.to_string(), b.to_string()));
            assert_eq!(once, theirs);
        }
    }
}

#[test]
fn byte_offsets_are_those_of_std() {
    for s in SAMPLES {
        let v = cs(s);
        assert_eq!(str_byte_len(s), s.len());
        for (k, (b, _)) in s.char_indices().enumerate() {
            assert_eq!(offset_of(&v, k), b);
            assert_eq!(index_at(&v, b), Some(k));
        }
        assert_eq!(offset_of(&v, v.len()), s.len());
        assert_eq!(index_at(&v, s.len()), Some(v.len()));
        assert_eq!(index_at(&v, s.len() + 1), None);
        for from in 0..=s.len() + 1 {
            assert_eq!(tail_bytes(&v, from).map(|t| st(&t)), s.get(from..).map(|t| t.to_string()));
            for to in 0..=s.len() + 1 {
                assert_eq!(
                    slice_bytes(&v, from, to).map(|t| st(&t)),
                    s.get(from..to).map(|t| t.to_string()),
                    "{:?}[{}..{}]",
                    s,
                    from,
                    to
                );
            }
        }
    }
}

#[test]
fn decimal_is_that_of_std() {
    for n in [0, 1, -1, 9, 10, 11, 99, 100, -100, 1650602040, i64::MAX, i64::MIN, i64::MIN + 1] {
        assert_eq!(st(&decimal(n)), n.to_string());
    }
}

#[test]
fn bytes_are_parsed_as_std_parses_them() {
    let words = [
        "", "0", "7", "007", "255", "256", "0255", "+5", "+", "-5", "1a", "a1", " 1", "1 ", "99999999999999999999",
        "+255", "+256", "١٢", "12٣",
    ];
    for w in words {
        assert_eq!(parse_byte(&cs(w)), w.parse::<u8>().ok(), "{:?}", w);
    }
    for n in 0..=300u32 {
        let w = n.to_string();
        assert_eq!(parse_byte(&cs(&w)), w.parse::<u8>().ok());
    }
}
