use cigale::text::chars_of;
use cigale::text::contains;
use cigale::text::decimal;
use cigale::text::escape_markup;
use cigale::text::find_from;
use cigale::text::precedes;
use cigale::text::push_decimal2;
use cigale::text::push_hex;
use cigale::text::push_signed;
use cigale::text::push_signed2;
use cigale::text::replace;
use cigale::text::same;
use cigale::text::string_of;

#[test]
fn a_text_is_its_characters() {
    assert_eq!(vec!['a', 'é', '✓'], chars_of("aé✓"));
    assert_eq!("aé✓", string_of(&vec!['a', 'é', '✓']));
    assert_eq!("", string_of(&vec![]));
    assert!(same("abc", "abc"));
    assert!(!same("abc", "abd"));
    assert!(!same("abc", "ab"));
}

#[test]
fn numbers_are_written_in_decimal_digits() {
    assert_eq!("0", decimal(0));
    assert_eq!("7", decimal(7));
    assert_eq!("10", decimal(10));
    assert_eq!("1234567890", decimal(1234567890));
    assert_eq!("18446744073709551615", decimal(u64::MAX as u128));
    assert_eq!(
        "340282366920938463463374607431768211455",
        decimal(u128::MAX)
    );
}

fn written(write: fn(&mut Vec<char>)) -> String {
    let mut out = vec!['>'];
    write(&mut out);
    out.into_iter().collect()
}

#[test]
fn numbers_are_filled_up_and_signed() {
    assert_eq!(">05", written(|o| push_decimal2(o, 5)));
    assert_eq!(">00", written(|o| push_decimal2(o, 0)));
    assert_eq!(">10", written(|o| push_decimal2(o, 10)));
    assert_eq!(">123", written(|o| push_decimal2(o, 123)));
    assert_eq!(">-5", written(|o| push_signed(o, -5)));
    assert_eq!(">5", written(|o| push_signed(o, 5)));
    assert_eq!(">0", written(|o| push_signed(o, 0)));
    assert_eq!(">-5", written(|o| push_signed2(o, -5)));
    assert_eq!(">05", written(|o| push_signed2(o, 5)));
    assert_eq!(">-15", written(|o| push_signed2(o, -15)));
    assert_eq!(
        ">-170141183460469231731687303715884105728",
        written(|o| push_signed(o, i128::MIN))
    );
    assert_eq!(">1f", written(|o| push_hex(o, 0x1f)));
    assert_eq!(">0", written(|o| push_hex(o, 0)));
    assert_eq!(">abc09", written(|o| push_hex(o, 0xabc09)));
}

#[test]
fn a_text_is_found_in_another() {
    assert!(contains("hello world", "lo w"));
    assert!(contains("hello", "hello"));
    assert!(contains("hello", ""));
    assert!(contains("", ""));
    assert!(!contains("hello", "world"));
    assert!(!contains("hell", "hello"));
    assert!(!contains("", "a"));
    let hay = chars_of("abcabc");
    assert_eq!(Some(1), find_from(&hay, &chars_of("bc"), 0));
    assert_eq!(Some(4), find_from(&hay, &chars_of("bc"), 2));
    assert_eq!(None, find_from(&hay, &chars_of("bc"), 5));
    assert_eq!(Some(6), find_from(&hay, &chars_of(""), 6));
    assert_eq!(None, find_from(&hay, &chars_of(""), 7));
}

#[test]
fn every_occurrence_is_replaced() {
    assert_eq!("a,b,c", replace("a\\,b\\,c", "\\,", ","));
    assert_eq!("https%3a%2f%2fx", replace(&replace("https://x", "/", "%2f"), ":", "%3a"));
    assert_eq!("42", replace("/users/42", "/users/", ""));
    assert_eq!("xbxb", replace("aaaabaaaab", "aaaa", "x"));
    // going on behind what was replaced
    assert_eq!("xa", replace("aaa", "aa", "x"));
    assert_eq!("abc", replace("abc", "abcd", "x"));
    assert_eq!("", replace("", "a", "x"));
    // an empty pattern occurs nowhere
    assert_eq!("abc", replace("abc", "", "x"));
    assert_eq!("2020-02-25 10:11:12+00", replace("2020-02-25 10:11:12Z", "Z", "+00"));
}

#[test]
fn markup_is_escaped() {
    assert_eq!("plain text", escape_markup("plain text"));
    assert_eq!(
        "&lt;a href=&quot;x&quot;&gt;Tom &amp; Jerry&apos;s&lt;/a&gt;",
        escape_markup("<a href=\"x\">Tom & Jerry's</a>")
    );
    assert_eq!("a&#x1;b&#x1f;c&#x7f;d", escape_markup("a\u{1}b\u{1f}c\u{7f}d"));
    // tab, line feed, carriage return and next line stay
    assert_eq!("a\tb\nc\rd\u{85}e", escape_markup("a\tb\nc\rd\u{85}e"));
    assert_eq!("&#x84;&#x86;&#x9f;\u{a0}é", escape_markup("\u{84}\u{86}\u{9f}\u{a0}é"));
    assert_eq!("", escape_markup(""));
}

#[test]
fn texts_are_ordered_as_in_the_dictionary() {
    let words = ["", "A", "AA", "AB", "B", "a", "ab", "b", "é", "✓"];
    for (i, a) in words.iter().enumerate() {
        for (j, b) in words.iter().enumerate() {
            assert_eq!(i < j, precedes(a, b), "{:?} {:?}", a, b);
            assert_eq!(a < b, precedes(a, b));
        }
    }
}
