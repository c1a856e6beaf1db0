use std::path::Path;
use werk_cli::json::{parse_json, parse_json_bytes, Json};
use werk_cli::order::{sorted_set, str_precedes};
use werk_cli::paths::{extension_eq_str, path_child, path_extension, path_file_name};
use werk_cli::report_lines::pad_left;
use werk_cli::text::{
    chars_of, i64_text, join_strings, pad_right, parse_u16, parse_u64, str_contains, str_ends_with,
    str_eq, str_eq_ignore_case, str_find, str_is_blank, str_lines, str_lower, str_replace_char,
    str_rsplit_once, str_split, str_split_once, str_starts_with, str_strip_prefix, str_trim,
    str_without_char, str_words, u64_text,
};

const TEXTS: [&str; 22] = [
    "",
    " ",
    "\t\n",
    "a",
    " a ",
    "a b  c\td",
    "\u{a0}nbsp\u{2003}em\u{3000}",
    "one\ntwo\r\nthree\n",
    "one\n\ntwo",
    "\r",
    "a\rb",
    "\n",
    "\r\n",
    "key=value=more",
    "MiXeD Case ÄÖÜ",
    "日本語 テキスト",
    "\u{85}next\u{85}",
    "a.b.c",
    "x:y:",
    "--",
    "\u{feff}bom",
    "\u{200b}zero",
];

const PATHS: [&str; 26] = [
    "",
    "/",
    ".",
    "..",
    "a",
    "a.txt",
    "a.tar.gz",
    ".hidden",
    ".hidden.txt",
    "a.",
    "dir/a.gguf",
    "dir/.a",
    "dir/",
    "dir/a/",
    "dir//a.b",
    "dir/.",
    "dir/..",
    "/abs/file.bin",
    "a/b/c.d/e",
    "..a",
    "...",
    "a..b",
    "dir/./",
    "./a.png",
    "dir.ext/a",
    "x/a.PNG",
];

#[test]
fn texts_are_equal_where_they_hold_the_same_characters() {
    for a in TEXTS {
        for b in TEXTS {
            assert_eq!(str_eq(a, b), a == b, "{a:?} {b:?}");
        }
    }
    assert!(str_eq("same", &String::from("same")));
}

#[test]
fn texts_are_trimmed_and_split_as_std_does() {
    for text in TEXTS {
        assert_eq!(str_trim(text), text.trim(), "{text:?}");
        assert_eq!(str_is_blank(text), text.trim().is_empty(), "{text:?}");
        assert_eq!(
            str_words(text),
            text.split_whitespace().collect::<Vec<_>>(),
            "{text:?}"
        );
        assert_eq!(
            str_lines(text),
            text.lines().collect::<Vec<_>>(),
            "{text:?}"
        );
        for c in [' ', '=', '.', 'a', '\n', '語'] {
            assert_eq!(
                str_split(text, c),
                text.split(c).collect::<Vec<_>>(),
                "{text:?}"
            );
            assert_eq!(
                str_split_once(text, c),
                text.split_once(c)
                    .map(|(left, right)| (left.to_string(), right.to_string()))
            );
            assert_eq!(
                str_rsplit_once(text, c),
                text.rsplit_once(c)
                    .map(|(left, right)| (left.to_string(), right.to_string()))
            );
            assert_eq!(
                str_replace_char(text, c, '_'),
                text.replace(c, "_"),
                "{text:?}"
            );
            assert_eq!(str_without_char(text, c), text.replace(c, ""), "{text:?}");
        }
        assert_eq!(str_lower(text), text.to_ascii_lowercase());
        assert_eq!(chars_of(text), text.chars().collect::<Vec<_>>());
    }
}

#[test]
fn texts_are_searched_as_std_does() {
    for text in TEXTS {
        for part in TEXTS {
            assert_eq!(str_contains(text, part), text.contains(part));
            assert_eq!(str_starts_with(text, part), text.starts_with(part));
            assert_eq!(str_ends_with(text, part), text.ends_with(part));
            assert_eq!(
                str_strip_prefix(text, part).as_deref(),
                text.strip_prefix(part)
            );
            assert_eq!(
                str_find(text, part),
                text.find(part)
                    .map(|at| text[..at].chars().count())
            );
            assert_eq!(
                str_eq_ignore_case(text, part),
                text.eq_ignore_ascii_case(part)
            );
            assert_eq!(str_precedes(text, part), text < part);
        }
    }
    let parts = TEXTS.iter().map(|text| text.to_string()).collect::<Vec<_>>();
    assert_eq!(join_strings(&parts, ", "), TEXTS.join(", "));
    let set = parts
        .iter()
        .cloned()
        .collect::<std::collections::BTreeSet<_>>();
    assert_eq!(sorted_set(&parts), set.into_iter().collect::<Vec<_>>());
}

#[test]
fn numbers_are_written_and_read_as_std_does() {
    for n in [0, 1, 9, 10, 99, 100, 12345, u64::MAX - 1, u64::MAX] {
        assert_eq!(u64_text(n), n.to_string());
        assert_eq!(parse_u64(&n.to_string()), Some(n));
    }
    for n in [0, 1, -1, 10, -10, i64::MAX, i64::MIN] {
        assert_eq!(i64_text(n), n.to_string());
    }
    for text in [
        "",
        "0",
        "007",
        "+7",
        "-7",
        "7 ",
        " 7",
        "65535",
        "65536",
        "18446744073709551615",
        "18446744073709551616",
        "1e3",
        "abc",
        "+",
        "１",
    ] {
        assert_eq!(parse_u64(text), text.parse::<u64>().ok(), "{text:?}");
        assert_eq!(parse_u16(text), text.parse::<u16>().ok(), "{text:?}");
    }
}

#[test]
fn columns_are_filled_as_std_does() {
    for text in TEXTS {
        for width in [0, 1, 5, 12] {
            assert_eq!(pad_right(text, width), format!("{text:<width$}"));
            assert_eq!(pad_left(text, width), format!("{text:>width$}"));
        }
    }
}

#[test]
fn paths_are_taken_apart_as_std_does() {
    for text in PATHS {
        let path = Path::new(text);
        assert_eq!(
            path_file_name(text).as_deref(),
            path.file_name().and_then(|name| name.to_str()),
            "{text:?}"
        );
        assert_eq!(
            path_extension(text).as_deref(),
            path.extension().and_then(|name| name.to_str()),
            "{text:?}"
        );
        assert_eq!(
            extension_eq_str(text, "png"),
            path.extension()
                .and_then(|name| name.to_str())
                .is_some_and(|name| name.eq_ignore_ascii_case("png")),
            "{text:?}"
        );
        assert_eq!(
            path_child(text, "child"),
            path.join("child").display().to_string(),
            "{text:?}"
        );
    }
}

#[test]
fn documents_are_read_whole() {
    let text = r#"{"a": [1, -2, 3.5, "x\ny", null, true], "b": {"c": 18446744073709551615}}"#;
    let Json::Object(fields) = parse_json(text).unwrap() else {
        panic!("an object was expected")
    };
    assert_eq!(fields.len(), 2);
    let items = fields[0].1.as_list().unwrap();
    assert_eq!(items[0].as_u64(), Some(1));
    assert_eq!(items[1].as_u64(), None);
    assert_eq!(items[3].as_str(), Some("x\ny"));
    assert_eq!(items[4], Json::Null);
    assert_eq!(items[5], Json::Bool(true));
    assert_eq!(fields[1].1.get("c").unwrap().as_u64(), Some(u64::MAX));
    assert_eq!(
        parse_json_bytes(text.as_bytes()).unwrap(),
        parse_json(text).unwrap()
    );
    assert!(parse_json("{").is_err());
    assert!(parse_json_bytes(b"\xff").is_err());
}
