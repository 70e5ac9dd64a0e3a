use radiance_cascades::mesh::LoadError;
use radiance_cascades::tangents::{load_tangent_buf, scan_tangent_text, split_words, NumberWords};

fn text(words: &NumberWords) -> (String, String, String) {
    (words.x.iter().collect(), words.y.iter().collect(), words.z.iter().collect())
}

fn triple(x: &str, y: &str, z: &str) -> (String, String, String) {
    (String::from(x), String::from(y), String::from(z))
}

fn words_of(line: &str) -> Vec<String> {
    split_words(&line.chars().collect()).iter().map(|w| w.iter().collect()).collect()
}

#[test]
fn tangents_and_bitangents_are_told_apart() {
    let found = load_tangent_buf(b"# vase\nt 1 0 0\nbt 0 1 0\nt 0.5 -0.5 1e-3\n").unwrap();
    let tangents: Vec<_> = found.tangents.iter().map(text).collect();
    let bitangents: Vec<_> = found.bitangents.iter().map(text).collect();
    assert_eq!(tangents, vec![triple("1", "0", "0"), triple("0.5", "-0.5", "1e-3")]);
    assert_eq!(bitangents, vec![triple("0", "1", "0")]);
}

#[test]
fn lines_end_with_or_without_carriage_return() {
    let found = load_tangent_buf(b"t 1 2 3\r\nbt 4 5 6\r\n\r\nt 7 8 9").unwrap();
    let tangents: Vec<_> = found.tangents.iter().map(text).collect();
    assert_eq!(tangents, vec![triple("1", "2", "3"), triple("7", "8", "9")]);
    assert_eq!(text(&found.bitangents[0]), triple("4", "5", "6"));
}

#[test]
fn other_lines_are_passed_over() {
    let found = load_tangent_buf(b"\n   \n# t 1 2 3\n#t 1 2 3\nv 1 2 3\ntt 1 2 3\nT 1 2 3\n\tt\t1  2\t 3 4 5\n").unwrap();
    assert_eq!(found.tangents.len(), 1);
    assert_eq!(text(&found.tangents[0]), triple("1", "2", "3"));
    assert!(found.bitangents.is_empty());
    let empty = load_tangent_buf(b"").unwrap();
    assert!(empty.tangents.is_empty() && empty.bitangents.is_empty());
}

#[test]
fn words_are_split_at_any_whitespace() {
    let found = load_tangent_buf("t\u{a0}1\u{2003}2\u{3000}3\n".as_bytes()).unwrap();
    assert_eq!(text(&found.tangents[0]), triple("1", "2", "3"));
    assert_eq!(words_of("  a\tbc \u{85}d  "), vec!["a", "bc", "d"]);
    assert_eq!(words_of(""), Vec::<String>::new());
    assert_eq!(words_of(" \t "), Vec::<String>::new());
    assert_eq!(words_of("one"), vec!["one"]);
    assert_eq!(words_of("a\u{200b}b"), vec!["a\u{200b}b"]);
}

#[test]
fn what_is_no_text_is_a_read_error() {
    assert_eq!(load_tangent_buf(&[b't', b' ', 0xff, b'\n']).err(), Some(LoadError::ReadError));
    assert_eq!(load_tangent_buf(&[0xc3]).err(), Some(LoadError::ReadError));
    assert_eq!(load_tangent_buf(b"t 1 2\n\xe2\x28\xa1").err(), Some(LoadError::ReadError));
}

#[test]
fn a_short_entry_is_a_parse_error() {
    assert_eq!(load_tangent_buf(b"t 1 2\n").err(), Some(LoadError::ParseError));
    assert_eq!(load_tangent_buf(b"t\n").err(), Some(LoadError::ParseError));
    assert_eq!(load_tangent_buf(b"t 1 2 3\nbt 1\nt 4 5 6\n").err(), Some(LoadError::ParseError));
    assert_eq!(load_tangent_buf(b"bt 1 2 \r\n").err(), Some(LoadError::ParseError));
    let chars: Vec<char> = "t 1 2 3\nbt".chars().collect();
    assert_eq!(scan_tangent_text(&chars).err(), Some(LoadError::ParseError));
}

#[test]
fn text_is_scanned_as_its_bytes_are() {
    let source = "bt -1 -2 -3\nt 1 2 3\n";
    let chars: Vec<char> = source.chars().collect();
    let from_text = scan_tangent_text(&chars).unwrap();
    let from_bytes = load_tangent_buf(source.as_bytes()).unwrap();
    assert_eq!(text(&from_text.tangents[0]), text(&from_bytes.tangents[0]));
    assert_eq!(text(&from_text.bitangents[0]), triple("-1", "-2", "-3"));
}
