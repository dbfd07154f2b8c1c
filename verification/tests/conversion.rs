use hakyll2zola::convert_document;
use hakyll2zola::errors::ParseError;
use hakyll2zola::metadata::Metadata;
use hakyll2zola::scanner::Stream;
use hakyll2zola::toml_out::{escape_toml_string, print_list_toml, print_tags_as_toml, split_tags};

#[test]
fn test_read_string() {
    let s = String::from("---\ntitle: タイトル");
    let mut stream = Stream::new(&s);
    assert_eq!(stream.read_string("---").unwrap(), "---");
}

#[test]
fn test_read_until() {
    let s = String::from("\ntitle: タイトル\n---\n");
    let mut stream = Stream::new(&s);
    assert_eq!(stream.read_until("---").unwrap(), "\ntitle: タイトル\n");
    assert_eq!(stream.read_string("---").unwrap(), "---");
}

#[test]
fn test_read_header() {
    let s = String::from("---\ntitle: タイトル\n---");
    let mut stream = Stream::new(&s);
    assert_eq!(
        stream.read_header().unwrap(),
        Metadata {
            title: String::from("タイトル"),
            date: None,
            tags: None,
            alias: None,
        }
    );
}

#[test]
fn test_read_header_full() {
    let s = String::from("---\ntitle: 『ビッグデータを支える技術』を読んだ データインジェスチョンについて\ndate: 2020-02-01\ntags: database, book\n---\nbody");
    let mut stream = Stream::new(&s);
    assert_eq!(
        stream.read_header().unwrap(),
        Metadata {
            title: String::from("『ビッグデータを支える技術』を読んだ データインジェスチョンについて"),
            date: Some(String::from("2020-02-01")),
            tags: Some(String::from("database, book")),
            alias: None,
        }
    );
}

#[test]
fn end_to_end_example() {
    let input = String::from("---\ntitle: Hello\ndate: 2020-02-01\ntags: x, y\n---\nBody text");
    let out = convert_document(&input, None).unwrap();
    assert_eq!(
        out,
        "+++\ntitle = \"Hello\"\ndate = 2020-02-01\n[taxonomies]\ntags = [\"x\",\"y\"]\n+++\nBody text"
    );
}

#[test]
fn body_is_untouched() {
    let input = String::from("---\ntitle: t\n---\n\nline one\nline two ends without newline");
    let out = convert_document(&input, None).unwrap();
    assert!(out.ends_with("\n\nline one\nline two ends without newline"));
    assert_eq!(out, "+++\ntitle = \"t\"\n+++\n\nline one\nline two ends without newline");
}

#[test]
fn title_only_single_field_line() {
    let meta = Metadata {
        title: String::from("only"),
        date: None,
        tags: None,
        alias: None,
    };
    let header = meta.format_header();
    assert_eq!(header, "+++\ntitle = \"only\"\n+++");
    assert!(!header.contains("[taxonomies]"));
    assert!(!header.contains("date"));
    assert_eq!(header.matches('=').count(), 1);
}

#[test]
fn two_tags_render_quoted_in_order() {
    let meta = Metadata {
        title: String::from("X"),
        date: Some(String::from("2020-02-01")),
        tags: Some(String::from("a, b")),
        alias: None,
    };
    assert_eq!(
        meta.format_header(),
        "+++\ntitle = \"X\"\ndate = 2020-02-01\n[taxonomies]\ntags = [\"a\",\"b\"]\n+++"
    );
}

#[test]
fn single_tag_without_separator() {
    assert_eq!(print_tags_as_toml(&String::from("solo")), "[\"solo\"]");
}

#[test]
fn comma_without_space_is_one_token() {
    assert_eq!(split_tags("a,b"), vec![String::from("a,b")]);
    assert_eq!(print_tags_as_toml(&String::from("a,b")), "[\"a,b\"]");
}

#[test]
fn split_tags_on_comma_space() {
    assert_eq!(
        split_tags("database, book"),
        vec![String::from("database"), String::from("book")]
    );
}

#[test]
fn list_toml_of_no_elements() {
    assert_eq!(print_list_toml(vec![]), "[]");
}

#[test]
fn missing_opening_delimiter_is_syntax_error() {
    let input = String::from("no front matter here\n---\ntitle: t\n---");
    let err = convert_document(&input, None).unwrap_err();
    assert!(matches!(err, ParseError::DelimiterMismatch { .. }));
}

#[test]
fn truncated_input_is_end_of_input_error() {
    let input = String::from("--");
    let err = convert_document(&input, None).unwrap_err();
    assert!(matches!(err, ParseError::UnexpectedEndOfInput { .. }));
}

#[test]
fn missing_closing_delimiter_is_not_found_error() {
    let input = String::from("---\ntitle: never closed\n");
    let err = convert_document(&input, None).unwrap_err();
    assert!(matches!(err, ParseError::DelimiterNotFound { .. }));
}

#[test]
fn block_without_title_is_decode_error() {
    let input = String::from("---\ndate: 2020-02-01\n---\nbody");
    let err = convert_document(&input, None).unwrap_err();
    assert!(matches!(err, ParseError::MetadataDecodeError { .. }));
}

#[test]
fn empty_block_is_decode_error() {
    let input = String::from("---\n---\nbody");
    let err = convert_document(&input, None).unwrap_err();
    assert!(matches!(err, ParseError::MetadataDecodeError { .. }));
}

#[test]
fn unparseable_block_is_decode_error() {
    let input = String::from("---\ntitle: [unclosed\n---\nbody");
    let err = convert_document(&input, None).unwrap_err();
    assert!(matches!(err, ParseError::MetadataDecodeError { .. }));
}

#[test]
fn non_string_tags_is_decode_error() {
    let input = String::from("---\ntitle: t\ntags: [a, b]\n---\nbody");
    let err = convert_document(&input, None).unwrap_err();
    assert!(matches!(err, ParseError::MetadataDecodeError { .. }));
}

// The original inserted the title into its quoted literal verbatim; this
// library deliberately deviates and escapes quotes and backslashes so the
// emitted header stays well-formed TOML.
#[test]
fn title_quotes_are_escaped() {
    let input = String::from("---\ntitle: a\"b\n---\nbody");
    let out = convert_document(&input, None).unwrap();
    assert_eq!(out, "+++\ntitle = \"a\\\"b\"\n+++\nbody");
    assert_eq!(escape_toml_string("a\"b\\c"), "a\\\"b\\\\c");
}

#[test]
fn alias_argument_renders_aliases_line() {
    let input = String::from("---\ntitle: t\n---\nbody");
    let out = convert_document(&input, Some("posts/t.html")).unwrap();
    assert_eq!(out, "+++\ntitle = \"t\"\naliases = [\"posts/t.html\"]\n+++\nbody");
}

#[test]
fn alias_argument_replaces_block_alias() {
    let input = String::from("---\ntitle: t\nalias: old.html\n---\n");
    let from_block = convert_document(&input, None).unwrap();
    assert_eq!(from_block, "+++\ntitle = \"t\"\naliases = [\"old.html\"]\n+++\n");
    let replaced = convert_document(&input, Some("new.html")).unwrap();
    assert_eq!(replaced, "+++\ntitle = \"t\"\naliases = [\"new.html\"]\n+++\n");
}

#[test]
fn error_describe_is_informative() {
    let input = String::from("xyz\n");
    let err = convert_document(&input, None).unwrap_err();
    let text = err.describe();
    assert!(text.contains("expected"));
}

#[test]
fn cursor_rests_on_body_after_header() {
    let s = String::from("---\ntitle: t\n---rest of document");
    let mut stream = Stream::new(&s);
    stream.read_header().unwrap();
    assert_eq!(stream.current(), "rest of document");
}

#[test]
fn null_optional_field_decodes_to_absent() {
    let input = String::from("---\ntitle: t\ndate:\ntags: a, b\n---\nbody");
    let out = convert_document(&input, None).unwrap();
    assert_eq!(out, "+++\ntitle = \"t\"\n[taxonomies]\ntags = [\"a\",\"b\"]\n+++\nbody");
}

#[test]
fn null_title_is_decode_error() {
    let input = String::from("---\ntitle:\n---\nbody");
    let err = convert_document(&input, None).unwrap_err();
    match err {
        ParseError::MetadataDecodeError { message } => {
            assert_eq!(message, "field title is not a string");
        },
        other => panic!("expected a decode error, got {:?}", other),
    }
}

#[test]
fn missing_title_message_names_the_field() {
    let input = String::from("---\ndate: 2020-02-01\n---\nbody");
    let err = convert_document(&input, None).unwrap_err();
    match err {
        ParseError::MetadataDecodeError { message } => {
            assert_eq!(message, "missing required field title");
        },
        other => panic!("expected a decode error, got {:?}", other),
    }
}

#[test]
fn parse_failure_keeps_parser_diagnostic() {
    let input = String::from("---\ntitle: [unclosed\n---\nbody");
    let err = convert_document(&input, None).unwrap_err();
    match err {
        ParseError::MetadataDecodeError { message } => {
            assert!(!message.is_empty());
            let reference = serde_yaml::from_str::<serde_yaml::Value>("\ntitle: [unclosed\n")
                .unwrap_err();
            assert_eq!(message, format!("{}", reference));
        },
        other => panic!("expected a decode error, got {:?}", other),
    }
}
