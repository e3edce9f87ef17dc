use gosim_project::text::{
    all_blank, chars_of, count_char, escape_quotes_in, has_white_space_property, lines_of_chars,
    rfind_char, slice_of, split_chars, string_of, trim_bounds,
};

const SAMPLES: [&str; 14] = [
    "",
    " ",
    "plain",
    "  padded\t\n",
    "\u{a0}\u{2003}wide\u{3000}",
    "one\ntwo",
    "one\r\ntwo\r\n",
    "one\rtwo\r",
    "\n",
    "\n\n",
    "a\n\nb\n",
    "tail\r",
    "\r\n\r\n",
    "mixed \"quotes\" and / slashes /",
];

fn text(chars: &Vec<char>) -> String {
    string_of(chars)
}

#[test]
fn characters_are_kept_in_order() {
    for sample in SAMPLES {
        let chars = chars_of(sample);
        assert_eq!(chars, sample.chars().collect::<Vec<char>>());
        assert_eq!(text(&chars), sample);
    }
    let chars = chars_of("héllo");
    assert_eq!(text(&slice_of(&chars, 1, 4)), "éll");
    assert_eq!(text(&slice_of(&chars, 2, 2)), "");
}

#[test]
fn trimming_agrees_with_the_standard_library() {
    for sample in SAMPLES {
        let chars = chars_of(sample);
        let (from, to) = trim_bounds(&chars);
        assert_eq!(text(&slice_of(&chars, from, to)), sample.trim(), "sample {:?}", sample);
        assert_eq!(all_blank(&chars), sample.trim().is_empty(), "sample {:?}", sample);
    }
}

#[test]
fn lines_agree_with_the_standard_library() {
    for sample in SAMPLES {
        let lines: Vec<String> = lines_of_chars(&chars_of(sample)).iter().map(text).collect();
        let expected: Vec<String> = sample.lines().map(str::to_string).collect();
        assert_eq!(lines, expected, "sample {:?}", sample);
    }
}

#[test]
fn splitting_agrees_with_the_standard_library() {
    for sample in SAMPLES {
        for sep in ['/', '\n', ' '] {
            let parts: Vec<String> = split_chars(&chars_of(sample), sep).iter().map(text).collect();
            let expected: Vec<String> = sample.split(sep).map(str::to_string).collect();
            assert_eq!(parts, expected, "sample {:?}", sample);
            assert_eq!(count_char(&chars_of(sample), sep), sample.matches(sep).count());
        }
    }
}

#[test]
fn last_place_of_a_character_is_found() {
    let chars = chars_of("a/b/c");
    assert_eq!(rfind_char(&chars, 5, '/'), Some(3));
    assert_eq!(rfind_char(&chars, 3, '/'), Some(1));
    assert_eq!(rfind_char(&chars, 1, '/'), None);
    assert_eq!(rfind_char(&chars, 0, '/'), None);
    assert_eq!(rfind_char(&chars, 5, 'x'), None);
}

#[test]
fn quotes_are_escaped_as_by_replacing_them() {
    for sample in SAMPLES {
        assert_eq!(escape_quotes_in(sample), sample.replace("\"", "\\\""));
    }
}

#[test]
fn white_space_is_what_the_standard_library_takes_for_it() {
    let mut count = 0;
    for code in 0..=0x10FFFFu32 {
        if let Some(c) = char::from_u32(code) {
            assert_eq!(has_white_space_property(c), c.is_whitespace(), "U+{:04X}", code);
            if c.is_whitespace() {
                count += 1;
            }
        }
    }
    assert_eq!(count, 25);
}
