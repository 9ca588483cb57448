use anni_store::backend::{find_track, join_path, strict_catalogs};
use anni_store::{BackendError, DirEntry, FileBackend, ScanRequest};
use std::collections::HashMap;

fn dir(name: &str) -> DirEntry {
    DirEntry { name: Some(name.to_string()), is_dir: true }
}

fn file(name: &str) -> DirEntry {
    DirEntry { name: Some(name.to_string()), is_dir: false }
}

fn listing(tree: &HashMap<String, Vec<DirEntry>>, path: &str) -> Vec<DirEntry> {
    tree[path]
        .iter()
        .map(|e| DirEntry { name: e.name.clone(), is_dir: e.is_dir })
        .collect()
}

fn refresh(b: &mut FileBackend, tree: &HashMap<String, Vec<DirEntry>>) -> Result<Vec<String>, BackendError> {
    let mut scan = b.begin_refresh();
    loop {
        match scan.next_request() {
            ScanRequest::ListDir(p) => scan.on_dir_listing(&p, &listing(tree, &p))?,
            ScanRequest::ListDiscs(p) => scan.on_disc_listing(&p, &listing(tree, &p))?,
            ScanRequest::Done => break,
        }
    }
    let mut cats = b.finish_refresh(scan);
    cats.sort();
    Ok(cats)
}

fn sample_tree() -> HashMap<String, Vec<DirEntry>> {
    let mut t = HashMap::new();
    t.insert(
        "/music".to_string(),
        vec![dir("Artist"), dir("[20200101][AAA-1] One"), file("readme.txt")],
    );
    t.insert(
        "/music/Artist".to_string(),
        vec![dir("[190101][BBB-2] Two [2 Discs]"), dir("2019")],
    );
    t.insert("/music/Artist/2019".to_string(), vec![dir("[20190505][CCC-3] Three")]);
    t.insert(
        "/music/Artist/[190101][BBB-2] Two [2 Discs]".to_string(),
        vec![
            dir("[BBB-2] Two [Disc 1]"),
            dir("[BBB-3] Two [Disc 2]"),
            dir("scans"),
            file("cover.jpg"),
        ],
    );
    t
}

#[test]
fn lenient_scan_finds_albums_and_discs() {
    let mut b = FileBackend::new("/music".to_string(), false);
    let cats = refresh(&mut b, &sample_tree()).unwrap();
    assert_eq!(cats, vec!["AAA-1", "BBB-2", "BBB-3", "CCC-3"]);
    assert_eq!(b.get_catalog_path("AAA-1").unwrap(), "/music/[20200101][AAA-1] One");
    assert_eq!(
        b.get_catalog_path("BBB-3").unwrap(),
        "/music/Artist/[190101][BBB-2] Two [2 Discs]/[BBB-3] Two [Disc 2]"
    );
    assert_eq!(b.get_catalog_path("CCC-3").unwrap(), "/music/Artist/2019/[20190505][CCC-3] Three");
    assert_eq!(b.get_catalog_path("Artist"), Err(BackendError::UnknownCatalog));
}

#[test]
fn refresh_twice_gives_same_catalogs() {
    let tree = sample_tree();
    let mut b = FileBackend::new("/music".to_string(), false);
    let first = refresh(&mut b, &tree).unwrap();
    let second = refresh(&mut b, &tree).unwrap();
    assert_eq!(first, second);
}

#[test]
fn multi_disc_album_yields_only_discs() {
    let mut t = HashMap::new();
    t.insert("/r".to_string(), vec![dir("[20200101][ALB-1] A [2 Discs]")]);
    t.insert(
        "/r/[20200101][ALB-1] A [2 Discs]".to_string(),
        vec![dir("[ALB-1] A [Disc 1]"), dir("[ALB-2] A [Disc 2]")],
    );
    let mut b = FileBackend::new("/r".to_string(), false);
    let cats = refresh(&mut b, &t).unwrap();
    assert_eq!(cats, vec!["ALB-1", "ALB-2"]);
    assert_eq!(
        b.get_catalog_path("ALB-1").unwrap(),
        "/r/[20200101][ALB-1] A [2 Discs]/[ALB-1] A [Disc 1]"
    );
}

#[test]
fn strict_and_lenient_agree_on_flat_library() {
    let name = "[20200101][LACM-14986] Title";
    let mut t = HashMap::new();
    t.insert("/lib/".to_string(), vec![dir(name)]);
    let mut lenient = FileBackend::new("/lib/".to_string(), false);
    refresh(&mut lenient, &t).unwrap();
    let strict = FileBackend::new("/lib/".to_string(), true);
    let from_lenient = lenient.get_catalog_path("LACM-14986").unwrap();
    let from_strict = strict.get_catalog_path(name).unwrap();
    assert_eq!(from_lenient, from_strict);
    assert_eq!(from_strict, "/lib/[20200101][LACM-14986] Title");
}

#[test]
fn strict_catalogs_are_directory_names() {
    let es = vec![dir("LACM-14986"), file("x.flac"), dir("KICA-1")];
    assert_eq!(strict_catalogs(&es).unwrap(), vec!["LACM-14986", "KICA-1"]);
    let bad = vec![dir("A"), DirEntry { name: None, is_dir: true }];
    assert_eq!(strict_catalogs(&bad), Err(BackendError::InvalidPath));
    let ignored = vec![DirEntry { name: None, is_dir: false }];
    assert_eq!(strict_catalogs(&ignored).unwrap(), Vec::<String>::new());
}

#[test]
fn invalid_directory_name_fails_scan() {
    let mut t = HashMap::new();
    t.insert("/r".to_string(), vec![DirEntry { name: None, is_dir: true }]);
    let mut b = FileBackend::new("/r".to_string(), false);
    assert_eq!(refresh(&mut b, &t), Err(BackendError::InvalidPath));
}

#[test]
fn track_lookup_by_prefix() {
    let names = vec!["cover.jpg".to_string(), "01.flac".to_string(), "02.flac".to_string()];
    let t = find_track(&names, 1).unwrap();
    assert_eq!(t.position, 1);
    assert_eq!(t.extension, "flac");
    assert_eq!(find_track(&names, 2).unwrap().position, 2);
    assert_eq!(find_track(&names, 3).err(), Some(BackendError::FileNotFound));
}

#[test]
fn track_prefix_widths() {
    let names = vec!["1.flac".to_string(), "105. x.wav".to_string(), "10.".to_string()];
    assert!(find_track(&names, 1).is_err());
    let t = find_track(&names, 105).unwrap();
    assert_eq!(t.position, 1);
    assert_eq!(t.extension, "wav");
    let t = find_track(&names, 10).unwrap();
    assert_eq!(t.position, 2);
    assert_eq!(t.extension, "");
    let names = vec!["07.tar.gz".to_string()];
    assert_eq!(find_track(&names, 7).unwrap().extension, "gz");
}

#[test]
fn cover_and_paths() {
    let strict = FileBackend::new("/m".to_string(), true);
    assert_eq!(strict.get_cover_path("ABC").unwrap(), "/m/ABC/cover.jpg");
    let lenient = FileBackend::new("/m".to_string(), false);
    assert_eq!(lenient.get_cover_path("ABC"), Err(BackendError::UnknownCatalog));
    assert_eq!(join_path("/a/", "b"), "/a/b");
    assert_eq!(join_path("", "b"), "b");
    assert_eq!(join_path("/a", "/b"), "/b");
}
