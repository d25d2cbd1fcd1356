use codeg::number::{read_i32, read_unsigned, write_i32, write_u64};
use codeg::text::{
    char_is_control, char_is_white, chars_of, join_chars, same_text, split_chars, string_of,
    trim_chars, trim_end_chars, words_of, CharSet,
};

const TEXTS: [&str; 12] = [
    "", " ", "a", " a ", "a b", "\u{3000}x\u{2028}", "a\t\n b  c", "...", "a..", "/a//", "ü é", "\u{b}z\u{85}",
];

#[test]
fn character_classes_are_those_of_unicode() {
    for c in '\0'..=char::MAX {
        assert_eq!(char_is_white(c), c.is_whitespace(), "{c:?}");
        assert_eq!(char_is_control(c), c.is_control(), "{c:?}");
    }
}

#[test]
fn trimming_and_splitting_are_those_of_str() {
    for s in TEXTS {
        let v = chars_of(s);
        assert_eq!(string_of(&v), s);
        assert_eq!(string_of(&trim_chars(&v)), s.trim());
        assert_eq!(string_of(&trim_end_chars(&v, CharSet::Dot)), s.trim_end_matches('.'));
        assert_eq!(string_of(&trim_end_chars(&v, CharSet::Slash)), s.trim_end_matches('/'));
        let pieces: Vec<String> = split_chars(&v, CharSet::Slash).iter().map(string_of).collect();
        assert_eq!(pieces, s.split('/').collect::<Vec<_>>());
        let words: Vec<String> = words_of(&v).iter().map(string_of).collect();
        assert_eq!(words, s.split_whitespace().collect::<Vec<_>>());
        assert_eq!(string_of(&join_chars(&split_chars(&v, CharSet::Slash), '/')), s);
        for t in TEXTS {
            assert_eq!(same_text(s, t), s == t);
        }
    }
}

#[test]
fn numbers_are_written_as_std_writes_them() {
    for n in [0, 1, 9, 10, 99, 100, 12345, u64::MAX - 1, u64::MAX] {
        assert_eq!(string_of(&write_u64(n)), n.to_string());
        assert_eq!(read_unsigned(&write_u64(n), u64::MAX), Some(n));
    }
    for n in [0, 1, -1, 42, -42, i32::MAX, i32::MIN] {
        assert_eq!(string_of(&write_i32(n)), n.to_string());
        assert_eq!(read_i32(&write_i32(n)), Some(n));
    }
}

#[test]
fn numbers_are_read_as_std_reads_them() {
    let texts = [
        "", "0", "007", "+1", "-1", "-0", "+", "-", "++1", "1 ", " 1", "1a", "٣", "18446744073709551615",
        "18446744073709551616", "99999999999999999999999", "2147483647", "2147483648", "-2147483648",
        "-2147483649", "+2147483648",
    ];
    for s in texts {
        assert_eq!(read_unsigned(&chars_of(s), u64::MAX), s.parse::<u64>().ok(), "{s:?}");
        assert_eq!(
            read_unsigned(&chars_of(s), u32::MAX as u64),
            s.parse::<u32>().ok().map(|n| n as u64),
            "{s:?}"
        );
        assert_eq!(read_i32(&chars_of(s)), s.parse::<i32>().ok(), "{s:?}");
    }
}
