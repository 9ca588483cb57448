use anni_store::convention::{parse_album, parse_disc, ConventionError};

#[test]
fn album_with_eight_digit_date() {
    let a = parse_album("[20200101][LACM-14986] Title Here").unwrap();
    assert_eq!(a.catalog, "LACM-14986");
    assert_eq!(a.title, "Title Here");
    assert_eq!(a.disc_count, 1);
    assert_eq!(a.release_date.year, 2020);
    assert_eq!(a.release_date.month, 1);
    assert_eq!(a.release_date.day, 1);
}

#[test]
fn album_with_six_digit_date_and_discs() {
    let a = parse_album("[191225][KICA-1234] Some Album [2 Discs]").unwrap();
    assert_eq!(a.catalog, "KICA-1234");
    assert_eq!(a.title, "Some Album");
    assert_eq!(a.disc_count, 2);
    assert_eq!(a.release_date.year, 2019);
    assert_eq!(a.release_date.month, 12);
    assert_eq!(a.release_date.day, 25);
}

#[test]
fn album_suffix_needs_a_title_before_it() {
    let a = parse_album("[20200101][X] [3 Discs]").unwrap();
    assert_eq!(a.title, "[3 Discs]");
    assert_eq!(a.disc_count, 1);
}

#[test]
fn album_disc_count_too_large_is_no_album() {
    assert!(parse_album("[20200101][X] T [99999999999 Discs]").is_err());
}

#[test]
fn not_albums() {
    for name in [
        "",
        "Artist",
        "[2020010][X] T",
        "[20200101][] T",
        "[20200101][X]T",
        "[20200101][X] ",
        "[2020a101][X] T",
        "[20200101] [X] T",
    ] {
        assert_eq!(parse_album(name).err(), Some(ConventionError::NotAnAlbum), "{}", name);
    }
}

#[test]
fn disc_names() {
    let d = parse_disc("[LACM-14987] Title [Disc 2]").unwrap();
    assert_eq!(d.catalog, "LACM-14987");
    assert_eq!(d.title, "Title");
    assert_eq!(d.index, 2);
    let d = parse_disc("[A] T [Disc 1] x [Disc 10]").unwrap();
    assert_eq!(d.title, "T [Disc 1] x");
    assert_eq!(d.index, 10);
}

#[test]
fn not_discs() {
    for name in ["", "[A] [Disc 1]", "[A] T [Disc ]", "[A] T [Disc 1", "[] T [Disc 1]", "A T [Disc 1]"] {
        assert_eq!(parse_disc(name).err(), Some(ConventionError::NotADisc), "{}", name);
    }
}
