use jomp16_bot_own::text::begins_with;
use jomp16_bot_own::text::begins_with_char;
use jomp16_bot_own::text::char_is_space;
use jomp16_bot_own::text::chars_of;
use jomp16_bot_own::text::followed_by;
use jomp16_bot_own::text::copy_texts;
use jomp16_bot_own::text::decimal_text;
use jomp16_bot_own::text::find_from;
use jomp16_bot_own::text::join;
use jomp16_bot_own::text::remove_char;
use jomp16_bot_own::text::same_text;
use jomp16_bot_own::text::slice_text;
use jomp16_bot_own::text::trim;
use jomp16_bot_own::text::trim_from;
use jomp16_bot_own::text::words;

fn strings(items: &[&str]) -> Vec<String> {
    items.iter().map(|s| s.to_string()).collect()
}

#[test]
fn words_of_a_capability_list() {
    assert_eq!(words("multi-prefix sasl"), strings(&["multi-prefix", "sasl"]));
    assert_eq!(words("multi-prefix"), strings(&["multi-prefix"]));
}

#[test]
fn words_are_never_empty() {
    assert_eq!(words(""), strings(&[]));
    assert_eq!(words(" "), strings(&[]));
    assert_eq!(words(" \t \r\n"), strings(&[]));
    assert_eq!(words("multi-prefix "), strings(&["multi-prefix"]));
    assert_eq!(words(" multi-prefix"), strings(&["multi-prefix"]));
    assert_eq!(words("a  b"), strings(&["a", "b"]));
    assert_eq!(words("  a   b  "), strings(&["a", "b"]));
}

#[test]
fn words_are_parted_by_any_white_space() {
    assert_eq!(words("sasl\tmulti-prefix"), strings(&["sasl", "multi-prefix"]));
    assert_eq!(words("a\u{a0}b\u{2003}c\u{3000}d\ne"), strings(&["a", "b", "c", "d", "e"]));
    assert_eq!(words("a\u{200b}b"), strings(&["a\u{200b}b"]));
}

#[test]
fn words_agree_with_std() {
    for s in ["", " ", "a b c", "  x  ", "sasl=PLAIN,EXTERNAL\tmulti-prefix ", "\u{e9} \u{fc}\u{2028}\u{df}", "\u{85}a\u{1680}"] {
        let expected: Vec<String> = s.split_whitespace().map(|p| p.to_string()).collect();
        assert_eq!(words(s), expected, "{:?}", s);
    }
}

#[test]
fn join_with_spaces() {
    assert_eq!(join(&strings(&[]), ' '), "");
    assert_eq!(join(&strings(&["a"]), ' '), "a");
    assert_eq!(join(&strings(&["a", "b", "c"]), ' '), "a b c");
    assert_eq!(join(&strings(&["", ""]), ' '), " ");
}

#[test]
fn join_of_words_has_single_spaces() {
    assert_eq!(join(&words(" a \t b  c "), ' '), "a b c");
    assert_eq!(join(&words("  "), ' '), "");
}

#[test]
fn remove_char_takes_every_occurrence() {
    assert_eq!(remove_char("\u{1}VERSION\u{1}", '\u{1}'), "VERSION");
    assert_eq!(remove_char("\u{1}PI\u{1}NG 1\u{1}", '\u{1}'), "PING 1");
    assert_eq!(remove_char("plain", '\u{1}'), "plain");
    assert_eq!(remove_char("", '\u{1}'), "");
}

#[test]
fn trim_removes_outer_white_space_only() {
    assert_eq!(trim("  a b \t\r\n"), "a b");
    assert_eq!(trim(""), "");
    assert_eq!(trim("   "), "");
    assert_eq!(trim("x"), "x");
    assert_eq!(trim("\u{a0}\u{2003}x\u{3000}"), "x");
}

#[test]
fn trim_agrees_with_std() {
    for s in ["", " ", " a ", "\t\u{85}b c\u{2028}", "\u{200b}x ", "\u{1680}y\u{205f}"] {
        assert_eq!(trim(s), s.trim());
    }
}

#[test]
fn white_space_agrees_with_std() {
    let mut n: u32 = 0;
    while n <= 0x3100 {
        if let Some(c) = char::from_u32(n) {
            assert_eq!(char_is_space(c), c.is_whitespace(), "U+{:04x}", n);
        }
        n += 1;
    }
}

#[test]
fn trim_from_skips_the_head() {
    let v = chars_of(".geoip  example.org ");
    assert_eq!(trim_from(&v, 6), "example.org");
    assert_eq!(trim_from(&v, v.len()), "");
}

#[test]
fn decimal_text_of_numbers() {
    assert_eq!(decimal_text(0), "0");
    assert_eq!(decimal_text(7), "7");
    assert_eq!(decimal_text(10), "10");
    assert_eq!(decimal_text(15169), "15169");
    assert_eq!(decimal_text(u32::MAX), "4294967295");
}

#[test]
fn prefixes_and_first_characters() {
    assert!(begins_with(".geoip 1.1.1.1", ".geoip"));
    assert!(begins_with(".geoip", ".geoip"));
    assert!(!begins_with(".geoi", ".geoip"));
    assert!(!begins_with(" .geoip", ".geoip"));
    assert!(begins_with("anything", ""));
    assert!(begins_with_char("#rust", '#'));
    assert!(!begins_with_char("", '#'));
    assert!(!begins_with_char("a#", '#'));
}

#[test]
fn slices_and_searches() {
    let v = chars_of("PING 123");
    assert_eq!(v.len(), 8);
    assert_eq!(find_from(&v, 0, ' '), 4);
    assert_eq!(find_from(&v, 5, ' '), 8);
    assert_eq!(slice_text(&v, 0, 4), "PING");
    assert_eq!(slice_text(&v, 5, 8), "123");
    assert_eq!(slice_text(&v, 3, 3), "");
}

#[test]
fn equal_texts_and_copies() {
    assert!(same_text("IAI", "IAI"));
    assert!(!same_text("IAI", "iai"));
    assert!(!same_text("IAI", "IAI "));
    assert_eq!(followed_by("TIME", " now"), "TIME now");
    let v = strings(&["PING", "VERSION"]);
    assert_eq!(copy_texts(&v), v);
}
