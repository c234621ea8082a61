use rbuster::counting::{count_lines, count_words};
use rbuster::list::{parse_code_list, parse_entry_list, parse_number_list, parse_size_list};
use rbuster::number::{decimal_chars, parse_decimal};
use rbuster::report::strip_prefix;
use rbuster::search::{find, replace_chars, split_bounds, str_contains, str_contains_char};
use rbuster::text::{char_is_whitespace, chars_of, string_of, trim_bounds, trim_str};

fn chars(s: &str) -> Vec<char> {
    s.chars().collect()
}

const SAMPLES: [&str; 20] = [
    "",
    " ",
    "a",
    " a",
    "a ",
    "  a  b  ",
    "\t\n x \r\n",
    "\u{a0}x\u{2003}",
    "\u{3000}",
    "\u{200b}x\u{200b}",
    "a,b",
    ",",
    ",,",
    "a,,b,",
    "FUZZ",
    "xFUZZyFUZZ",
    "FUFUZZ",
    "FUZFUZZZ",
    "line one\nline two\n",
    "no newline at end\nlast",
];

#[test]
fn whitespace_agrees_with_std_on_every_char() {
    for n in 0u32..=0x10ffff {
        if let Some(c) = char::from_u32(n) {
            assert_eq!(char_is_whitespace(c), c.is_whitespace(), "U+{:04X}", n);
        }
    }
}

#[test]
fn chars_round_trip() {
    for s in SAMPLES {
        assert_eq!(chars_of(s), chars(s));
        assert_eq!(string_of(&chars(s)), s);
    }
}

#[test]
fn trim_agrees_with_std() {
    for s in SAMPLES {
        let v = chars(s);
        let (a, b) = trim_bounds(&v);
        let got: String = v[a..b].iter().collect();
        assert_eq!(got, s.trim(), "input {:?}", s);
        assert_eq!(trim_str(s), s.trim());
    }
}

#[test]
fn trim_of_blank_is_empty() {
    let v = chars(" \t ");
    let (a, b) = trim_bounds(&v);
    assert_eq!(a, b);
}

#[test]
fn split_agrees_with_std() {
    for s in SAMPLES {
        let v = chars(s);
        let got: Vec<String> = split_bounds(&v, ',')
            .into_iter()
            .map(|(a, b)| v[a..b].iter().collect())
            .collect();
        let expected: Vec<String> = s.split(',').map(String::from).collect();
        assert_eq!(got, expected, "input {:?}", s);
    }
}

#[test]
fn split_of_empty_is_one_empty_field() {
    assert_eq!(split_bounds(&Vec::new(), ','), vec![(0, 0)]);
}

#[test]
fn find_agrees_with_std() {
    let needles = ["", "a", "FUZZ", "ZZ", "\n", "b  "];
    for s in SAMPLES {
        for n in needles {
            let got = find(&chars(s), &chars(n));
            let expected = s.find(n).map(|byte| s[..byte].chars().count());
            assert_eq!(got, expected, "find {:?} in {:?}", n, s);
            assert_eq!(str_contains(s, n), s.contains(n));
        }
        assert_eq!(str_contains_char(s, ','), s.contains(','));
    }
}

#[test]
fn replace_agrees_with_std() {
    let payloads = ["", "x", "FUZZ", "admin/../", "FU"];
    for s in SAMPLES {
        for p in payloads {
            let got: String = replace_chars(&chars(s), &chars("FUZZ"), &chars(p))
                .into_iter()
                .collect();
            assert_eq!(got, s.replace("FUZZ", p), "replace in {:?} by {:?}", s, p);
        }
    }
}

#[test]
fn replace_of_nothing_changes_nothing() {
    assert_eq!(replace_chars(&chars("abc"), &Vec::new(), &chars("x")), chars("abc"));
}

#[test]
fn replace_does_not_rescan_what_it_put_in() {
    let got: String = replace_chars(&chars("aFUZZb"), &chars("FUZZ"), &chars("FUZZFUZZ"))
        .into_iter()
        .collect();
    assert_eq!(got, "aFUZZFUZZb");
}

#[test]
fn parse_decimal_agrees_with_std() {
    let inputs = [
        "", "0", "7", "+7", "-7", "+", "++7", "7+", "007", "65535", "65536", "4294967296",
        "18446744073709551615", "18446744073709551616", "99999999999999999999999", "1 2", "１",
        "1e3", "0x10",
    ];
    for s in inputs {
        assert_eq!(
            parse_decimal(s, u16::MAX as u64),
            s.parse::<u16>().ok().map(u64::from),
            "u16 {:?}",
            s
        );
        assert_eq!(
            parse_decimal(s, u64::MAX),
            s.parse::<u64>().ok(),
            "u64 {:?}",
            s
        );
    }
}

#[test]
fn parse_decimal_holds_the_limit() {
    assert_eq!(parse_decimal("123", 1000), Some(123));
    assert_eq!(parse_decimal("123", 123), Some(123));
    assert_eq!(parse_decimal("123", 122), None);
    assert_eq!(parse_decimal("0", 0), Some(0));
    assert_eq!(parse_decimal("1", 0), None);
}

#[test]
fn decimal_agrees_with_std() {
    for n in [0u64, 1, 9, 10, 11, 99, 100, 404, 65535, 1234567890, u64::MAX] {
        let got: String = decimal_chars(n).into_iter().collect();
        assert_eq!(got, n.to_string());
    }
}

#[test]
fn decimal_then_parse_gives_the_number_back() {
    for n in [0u64, 5, 10, 200, 65535, u64::MAX] {
        let text: String = decimal_chars(n).into_iter().collect();
        assert_eq!(parse_decimal(&text, u64::MAX), Some(n));
    }
}

#[test]
fn number_lists_skip_bad_entries() {
    assert_eq!(parse_number_list("1, 2,x,300", 255), vec![1, 2]);
    assert_eq!(parse_code_list("200,404 , 70000,"), vec![200, 404]);
    assert_eq!(parse_size_list(""), Vec::<usize>::new());
    assert_eq!(parse_size_list("0"), vec![0]);
}

#[test]
fn entry_lists_keep_every_field() {
    assert_eq!(parse_entry_list("a, b ,,c"), vec!["a", "b", "", "c"]);
    assert_eq!(parse_entry_list(""), vec![""]);
    assert_eq!(parse_entry_list(" , "), vec!["", ""]);
}

#[test]
fn line_and_word_counts_agree_with_std() {
    let bodies = [
        "",
        "\n",
        "\n\n",
        "a",
        "a\n",
        "a\nb",
        "a\r\nb\r\n",
        "  two  words \n\t three more words\n",
        "\u{a0}nbsp\u{2003}separates\u{3000}words",
        "trailing   ",
        "   ",
    ];
    for b in bodies {
        assert_eq!(count_lines(b), b.lines().count(), "lines of {:?}", b);
        assert_eq!(count_words(b), b.split_whitespace().count(), "words of {:?}", b);
    }
}

#[test]
fn counts_have_exact_values() {
    assert_eq!(count_lines("one\ntwo\nthree"), 3);
    assert_eq!(count_lines("one\ntwo\n"), 2);
    assert_eq!(count_words("alpha beta  gamma"), 3);
    assert_eq!(count_words(""), 0);
}

#[test]
fn strip_prefix_removes_one_leading_copy() {
    assert_eq!(strip_prefix("http://h/admin", "http://h"), "/admin");
    assert_eq!(strip_prefix("http://h/admin", "https://h"), "http://h/admin");
    assert_eq!(strip_prefix("aaa", "a"), "aa");
    assert_eq!(strip_prefix("a", "aaa"), "a");
    assert_eq!(strip_prefix("abc", ""), "abc");
}
