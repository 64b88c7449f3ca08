use winres::escape::escape_string;

#[test]
fn string_escaping() {
    assert_eq!(&escape_string(""), "");
    assert_eq!(&escape_string("foo"), "foo");
    assert_eq!(&escape_string("\"Hello\""), "\"\"Hello\"\"");
    assert_eq!(
        &escape_string("C:\\Program Files\\Foobar"),
        "C:\\\\Program Files\\\\Foobar"
    );
}

#[test]
fn escapes_every_special_character() {
    assert_eq!(escape_string("'"), "\\'");
    assert_eq!(escape_string("\n"), "\\n");
    assert_eq!(escape_string("\t"), "\\t");
    assert_eq!(escape_string("\r"), "\\r");
    assert_eq!(escape_string("\\"), "\\\\");
    assert_eq!(escape_string("\""), "\"\"");
}

#[test]
fn escapes_a_mix_in_order() {
    assert_eq!(
        escape_string("a\"b\\c\nd\te\rf'g"),
        "a\"\"b\\\\c\\nd\\te\\rf\\'g"
    );
}

#[test]
fn leaves_other_text_alone() {
    assert_eq!(escape_string("⛄❤☕ Copyright © 2016"), "⛄❤☕ Copyright © 2016");
    assert_eq!(escape_string("a/b:c;d"), "a/b:c;d");
}

/// The inverse rule, written out for the test.
fn unescape(text: &str) -> String {
    let chars: Vec<char> = text.chars().collect();
    let mut out = String::new();
    let mut i = 0;
    while i < chars.len() {
        if i + 1 < chars.len() && chars[i] == '"' && chars[i + 1] == '"' {
            out.push('"');
            i += 2;
        } else if i + 1 < chars.len()
            && chars[i] == '\\'
            && matches!(chars[i + 1], '\'' | '\\' | 'n' | 't' | 'r')
        {
            out.push(match chars[i + 1] {
                'n' => '\n',
                't' => '\t',
                'r' => '\r',
                other => other,
            });
            i += 2;
        } else {
            out.push(chars[i]);
            i += 1;
        }
    }
    out
}

#[test]
fn escaped_text_expands_to_what_it_was() {
    for text in [
        "",
        "plain",
        "\"quoted\"",
        "back\\slash",
        "line\nfeed\r\n",
        "tab\tand 'single'",
        "\\n is not a line feed",
        "\"\"\\\\''",
        "ends with a backslash\\",
        "ünïcödé \"\\\n",
    ] {
        assert_eq!(unescape(&escape_string(text)), text);
        let twice = escape_string(&escape_string(text));
        assert_eq!(unescape(&unescape(&twice)), text);
    }
}

#[test]
fn white_space_is_what_std_calls_white_space() {
    for code in 0..=0x10FFFFu32 {
        if let Some(c) = char::from_u32(code) {
            assert_eq!(winres::text::is_whitespace(c), c.is_whitespace(), "U+{:04X}", code);
        }
    }
}

#[test]
fn splits_lines_as_std_does() {
    for text in [
        "",
        "\n",
        "\r",
        "\r\n",
        "a",
        "a\n",
        "a\r",
        "a\r\n",
        "a\r\r\n",
        "a\nb",
        "a\n\nb\n",
        "\n\na\r\nb\rc\n\r",
        "\r\n\r\n",
        "ends\n\n",
        " x \n\ty\t\r\n  ",
    ] {
        let chars = winres::text::chars_of(text);
        assert_eq!(chars, text.chars().collect::<Vec<char>>());
        let bounds = winres::text::split_lines(&chars);
        let ours: Vec<String> = bounds.iter().map(|(from, to)| chars[*from..*to].iter().collect()).collect();
        let theirs: Vec<String> = text.lines().map(|line| line.to_string()).collect();
        assert_eq!(ours, theirs, "{:?}", text);
    }
}
