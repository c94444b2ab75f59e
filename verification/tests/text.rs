use tcptalk::text::{
    chars_of, contains, eq_ignore_ascii_case, find_char, folded, is_whitespace, string_of, trim,
    trim_bounds,
};

#[test]
fn trim_removes_white_space_on_both_sides() {
    assert_eq!(trim("  hello world \n"), "hello world");
    assert_eq!(trim("\t\r\nx"), "x");
    assert_eq!(trim("x"), "x");
}

#[test]
fn trim_keeps_inner_white_space() {
    assert_eq!(trim(" a  b\tc "), "a  b\tc");
}

#[test]
fn trim_of_blank_text_is_empty() {
    assert_eq!(trim(""), "");
    assert_eq!(trim("   "), "");
    assert_eq!(trim(" \t\r\n"), "");
}

#[test]
fn trim_agrees_with_std_on_unicode_spaces() {
    let samples = [
        "\u{00A0}name\u{3000}",
        "\u{2003}a b\u{2028}",
        "\u{0085}x\u{1680}",
        "\u{200B}zero width is no space\u{200B}",
        "  é  ",
    ];
    for s in samples {
        assert_eq!(trim(s), s.trim());
    }
}

#[test]
fn trim_twice_is_trim_once() {
    let once = trim("  a b  ");
    assert_eq!(trim(&once), once);
}

#[test]
fn trim_bounds_point_at_the_first_and_last_solid_character() {
    let v = chars_of("  ab c ");
    assert_eq!(trim_bounds(&v), (2, 6));
    let blank = chars_of("   ");
    let (a, b) = trim_bounds(&blank);
    assert_eq!(a, b);
}

#[test]
fn is_whitespace_agrees_with_std_on_every_character() {
    let mut n: u32 = 0;
    while n <= 0x10FFFF {
        if let Some(c) = char::from_u32(n) {
            assert_eq!(is_whitespace(c), c.is_whitespace(), "U+{:04X}", n);
        }
        n += 1;
    }
}

#[test]
fn chars_of_and_string_of_are_inverse() {
    let v = chars_of("héllo");
    assert_eq!(v, vec!['h', 'é', 'l', 'l', 'o']);
    assert_eq!(string_of(&v, 0, 5), "héllo");
    assert_eq!(string_of(&v, 1, 3), "él");
    assert_eq!(string_of(&v, 2, 2), "");
}

#[test]
fn folded_maps_upper_case_ascii_only() {
    assert_eq!(folded('A'), 'a' as u32);
    assert_eq!(folded('Z'), 'z' as u32);
    assert_eq!(folded('a'), 'a' as u32);
    assert_eq!(folded('@'), '@' as u32);
    assert_eq!(folded('['), '[' as u32);
    assert_eq!(folded('É'), 'É' as u32);
}

#[test]
fn eq_ignore_ascii_case_agrees_with_std() {
    let pairs = [
        ("System", "system"),
        ("SYSTEM", "sYsTeM"),
        ("alice", "alice2"),
        ("", ""),
        ("a", "b"),
        ("É", "é"),
        ("straße", "STRASSE"),
        ("@", "`"),
        ("[", "{"),
    ];
    for (a, b) in pairs {
        assert_eq!(eq_ignore_ascii_case(a, b), a.eq_ignore_ascii_case(b), "{:?} {:?}", a, b);
    }
}

#[test]
fn find_char_gives_the_first_position() {
    assert_eq!(find_char(&chars_of("a:b:c"), ':'), Some(1));
    assert_eq!(find_char(&chars_of(":x"), ':'), Some(0));
    assert_eq!(find_char(&chars_of("abc"), ':'), None);
    assert_eq!(find_char(&chars_of(""), ':'), None);
}

#[test]
fn contains_agrees_with_std() {
    let cases = [
        ("Username is already taken. Please choose another.\n", "Username is already taken"),
        ("hello", ""),
        ("", ""),
        ("", "a"),
        ("abc", "abcd"),
        ("aab", "ab"),
        ("abcabd", "abd"),
        ("abc", "c"),
        ("abc", "d"),
    ];
    for (hay, needle) in cases {
        assert_eq!(contains(hay, needle), hay.contains(needle), "{:?} {:?}", hay, needle);
    }
}
