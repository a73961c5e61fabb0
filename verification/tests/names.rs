use git_relations::error::ErrorKind;
use git_relations::object_id::ObjectId;

const FIRST: &str = "6bf8ee6cd03eac57b7039756edc58c4aed6f6882";
const SECOND: &str = "9096bf0343aecaa4a592da68c10874fd9fe35918";

#[test]
fn a_full_name_parses_and_prints_back() {
    let id = ObjectId::parse(FIRST).unwrap();
    assert_eq!(id.to_hex(), FIRST);
    let id = ObjectId::parse(SECOND).unwrap();
    assert_eq!(id.to_hex(), SECOND);
}

#[test]
fn parse_gives_the_bytes_of_the_digits() {
    let id = ObjectId::parse(SECOND).unwrap();
    assert_eq!(
        id.as_bytes(),
        [
            0x90, 0x96, 0xbf, 0x03, 0x43, 0xae, 0xca, 0xa4, 0xa5, 0x92, 0xda, 0x68, 0xc1, 0x08,
            0x74, 0xfd, 0x9f, 0xe3, 0x59, 0x18
        ]
    );
}

#[test]
fn names_print_as_forty_lower_case_digits() {
    let mut bytes = [0u8; 20];
    bytes[0] = 0xAB;
    bytes[1] = 0x0F;
    bytes[19] = 0xF0;
    let text = ObjectId::from_bytes(bytes).to_hex();
    assert_eq!(text, "ab0f0000000000000000000000000000000000f0");
    assert_eq!(text.len(), 40);
    assert!(text.chars().all(|c| c.is_ascii_digit() || ('a'..='f').contains(&c)));
}

#[test]
fn upper_case_digits_are_read() {
    let id = ObjectId::parse("9096BF0343AECAA4A592DA68C10874FD9FE35918").unwrap();
    assert_eq!(id.to_hex(), SECOND);
}

#[test]
fn a_short_name_is_filled_with_zeros() {
    let id = ObjectId::parse("decbf2b").unwrap();
    assert_eq!(id.to_hex(), "decbf2b000000000000000000000000000000000");
    let id = ObjectId::parse("a").unwrap();
    assert_eq!(id.as_bytes()[0], 0xa0);
    assert_eq!(id.as_bytes()[1], 0);
}

#[test]
fn an_empty_revision_does_not_resolve() {
    let e = ObjectId::parse("").unwrap_err();
    assert_eq!(e.kind, ErrorKind::RevisionResolution);
    assert!(!e.message.is_empty());
}

#[test]
fn a_revision_of_forty_one_digits_does_not_resolve() {
    let e = ObjectId::parse("9096bf0343aecaa4a592da68c10874fd9fe359180").unwrap_err();
    assert_eq!(e.kind, ErrorKind::RevisionResolution);
}

#[test]
fn a_revision_with_other_characters_does_not_resolve() {
    assert_eq!(ObjectId::parse("foo").unwrap_err().kind, ErrorKind::RevisionResolution);
    assert_eq!(ObjectId::parse("HEAD").unwrap_err().kind, ErrorKind::RevisionResolution);
    assert_eq!(ObjectId::parse("12 34").unwrap_err().kind, ErrorKind::RevisionResolution);
    assert_eq!(ObjectId::parse("12g4").unwrap_err().kind, ErrorKind::RevisionResolution);
    assert_eq!(ObjectId::parse("é").unwrap_err().kind, ErrorKind::RevisionResolution);
    assert_eq!(
        ObjectId::parse("ééééééééééééééééééééé").unwrap_err().kind,
        ErrorKind::RevisionResolution
    );
}

#[test]
fn same_tells_names_apart() {
    let a = ObjectId::parse(FIRST).unwrap();
    let b = ObjectId::parse(SECOND).unwrap();
    let mut bytes = a.as_bytes();
    bytes[19] ^= 1;
    let c = ObjectId::from_bytes(bytes);
    assert!(a.same(&a));
    assert!(a.same(&ObjectId::parse(FIRST).unwrap()));
    assert!(!a.same(&b));
    assert!(!a.same(&c));
    assert!(!c.same(&a));
}
