use identicon_service::options::{parse_query, resolve, OptionsFormat, ResolveError};

#[test]
fn defaults_applied() {
    let o = parse_query("hash=test").unwrap();
    assert_eq!(o.hash, "test");
    assert_eq!(o.border, 50);
    assert_eq!(o.size, 5);
    assert_eq!(o.scale, 500);
    assert_eq!(o.format, OptionsFormat::PNG);
}

#[test]
fn empty_query_gives_defaults_with_empty_seed() {
    let o = parse_query("").unwrap();
    assert_eq!(o.hash, "");
    assert_eq!(o.border, 50);
    assert_eq!(o.size, 5);
    assert_eq!(o.scale, 500);
    assert_eq!(o.format, OptionsFormat::PNG);
}

#[test]
fn all_fields_parsed() {
    let o = parse_query("hash=magic&border=10&size=7&scale=700&format=jpeg").unwrap();
    assert_eq!(o.hash, "magic");
    assert_eq!(o.border, 10);
    assert_eq!(o.size, 7);
    assert_eq!(o.scale, 700);
    assert_eq!(o.format, OptionsFormat::JPG);
}

#[test]
fn format_png_parsed() {
    let o = parse_query("hash=a&format=png").unwrap();
    assert_eq!(o.format, OptionsFormat::PNG);
}

#[test]
fn unknown_keys_ignored() {
    let o = parse_query("hash=a&color=red&foo=bar").unwrap();
    assert_eq!(o.hash, "a");
    assert_eq!(o.border, 50);
}

#[test]
fn later_occurrence_overrides() {
    let o = parse_query("scale=100&scale=200").unwrap();
    assert_eq!(o.scale, 200);
}

#[test]
fn malformed_format_rejected() {
    assert!(parse_query("hash=test&format=bmp").is_err());
}

#[test]
fn format_is_case_sensitive() {
    assert!(parse_query("hash=test&format=PNG").is_err());
}

#[test]
fn malformed_number_rejected() {
    assert!(parse_query("hash=t&border=abc").is_err());
    assert!(parse_query("hash=t&border=").is_err());
    assert!(parse_query("hash=t&border=-1").is_err());
}

#[test]
fn numeric_overflow_rejected() {
    assert!(parse_query("hash=t&scale=4294967296").is_err());
    let o = parse_query("hash=t&size=1&scale=4294967295").unwrap();
    assert_eq!(o.scale, 4294967295);
}

#[test]
fn percent_and_plus_decoding() {
    let o = parse_query("hash=a%20b").unwrap();
    assert_eq!(o.hash, "a b");
    let o = parse_query("hash=a+b").unwrap();
    assert_eq!(o.hash, "a b");
    let o = parse_query("hash=%26%3D").unwrap();
    assert_eq!(o.hash, "&=");
    let o = parse_query("hash=%2F%2f").unwrap();
    assert_eq!(o.hash, "//");
}

#[test]
fn encoded_separators_do_not_split() {
    let o = parse_query("hash=a%26border%3D9").unwrap();
    assert_eq!(o.hash, "a&border=9");
    assert_eq!(o.border, 50);
}

#[test]
fn keys_are_decoded_too() {
    let o = parse_query("ha%73h=x").unwrap();
    assert_eq!(o.hash, "x");
}

#[test]
fn numbers_may_be_encoded() {
    let o = parse_query("hash=t&border=%31%30").unwrap();
    assert_eq!(o.border, 10);
}

#[test]
fn malformed_escape_rejected() {
    assert!(parse_query("hash=a%2").is_err());
    assert!(parse_query("hash=a%zz").is_err());
    assert!(parse_query("hash=%").is_err());
    assert!(parse_query("%2x=1").is_err());
}

#[test]
fn empty_seed_is_signalled() {
    assert_eq!(resolve("").unwrap_err(), ResolveError::EmptySeed);
    assert_eq!(resolve("hash=").unwrap_err(), ResolveError::EmptySeed);
}

#[test]
fn validation_boundary() {
    let o = resolve("hash=t&size=7&scale=7").unwrap();
    assert_eq!(o.size, 7);
    assert_eq!(o.scale, 7);
    assert_eq!(
        resolve("hash=t&size=8&scale=7").unwrap_err(),
        ResolveError::Unprocessable
    );
}

#[test]
fn malformed_query_is_signalled() {
    assert_eq!(
        resolve("hash=t&format=gif").unwrap_err(),
        ResolveError::Malformed
    );
}
