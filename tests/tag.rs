use anni_store::tag::{trim, TagError};
use anni_store::{TagRef, TagString, TagType};

#[test]
fn test_tag_string_serialize() {
    let tag = TagString(TagRef::new("Test".to_string(), TagType::Artist));
    assert_eq!(tag.to_string(), "artist:Test".to_string());
}

#[test]
fn test_tag_string_deserialize() {
    let tags: Vec<TagString> = vec![
        "artist:123",
        "group:456",
        "implicit-tag-type",
        "implicit:tag-type with :",
    ]
    .into_iter()
    .map(|s| TagString::parse(s.to_string()))
    .collect();
    assert_eq!(tags.len(), 4);

    assert_eq!(tags[0].0.name(), "123");
    assert_eq!(*tags[0].0.tag_type(), TagType::Artist);

    assert_eq!(tags[1].0.name(), "456");
    assert_eq!(*tags[1].0.tag_type(), TagType::Group);

    assert_eq!(tags[2].0.name(), "implicit-tag-type");
    assert_eq!(*tags[2].0.tag_type(), TagType::Default);

    assert_eq!(tags[3].0.name(), "implicit:tag-type with :");
    assert_eq!(*tags[3].0.tag_type(), TagType::Default);
}

#[test]
fn tag_name_is_trimmed_after_type() {
    let t = TagRef::from_str("series:  Love Live! \t".to_string()).unwrap();
    assert_eq!(t.name(), "Love Live!");
    assert_eq!(*t.tag_type(), TagType::Series);
}

#[test]
fn default_tag_writes_name_only() {
    let t = TagRef::simple("plain".to_string());
    assert_eq!(t.to_string(), "plain");
    let d = TagRef::from_str("default:x".to_string()).unwrap();
    assert_eq!(*d.tag_type(), TagType::Default);
    assert_eq!(d.name(), "x");
}

#[test]
fn unknown_tag_type_is_an_error() {
    assert_eq!(
        TagType::from_str("band"),
        Err(TagError::UnknownType("band".to_string()))
    );
    assert_eq!(TagType::from_str("category"), Ok(TagType::Category));
    assert_eq!(TagType::Organization.as_str(), "organization");
}

#[test]
fn default_tag_matches_any_type() {
    let any = TagRef::simple("A".to_string());
    let artist = TagRef::new("A".to_string(), TagType::Artist);
    let group = TagRef::new("A".to_string(), TagType::Group);
    assert!(any == artist);
    assert!(artist != any);
    assert!(artist != group);
    assert!(artist == artist.full_clone());
}

#[test]
fn trim_removes_unicode_white_space() {
    assert_eq!(trim("\u{3000} a b \u{2009}"), "a b");
    assert_eq!(trim("   "), "");
    assert_eq!(trim(""), "");
    assert_eq!(trim("x"), "x");
}
