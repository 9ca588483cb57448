//! The filesystem backend: which directory a catalog lives in, how a scan of
//! the library tree builds the catalog index, and which file serves a track.
//!
//! The backend does no I/O itself. A scan is a small state machine: it names
//! the next directory to list, and is handed that directory's entries.
use vstd::prelude::*;
use vstd::string::*;
use crate::convention::{
    album_catalog, album_disc_count, disc_catalog, is_album, is_disc, parse_album, parse_disc,
};
use crate::index::CatalogIndex;

verus! {

#[derive(Clone, Copy, Debug, PartialEq, Eq, Structural)]
pub enum BackendError {
    /// A directory name that is not valid Unicode.
    InvalidPath,
    /// No catalog of that identifier was found by the last scan.
    UnknownCatalog,
    /// No file in the catalog's directory matches the request.
    FileNotFound,
}

/// `name` inside `dir`, as a path.
pub open spec fn join(dir: Seq<char>, name: Seq<char>) -> Seq<char> {
    if name.len() > 0 && name[0] == '/' {
        name
    } else if dir.len() == 0 || dir.last() == '/' {
        dir + name
    } else {
        dir + seq!['/'] + name
    }
}

pub fn join_path(dir: &str, name: &str) -> (r: String)
    ensures
        r@ == join(dir@, name@),
{
    let nl = name.unicode_len();
    if nl > 0 && name.get_char(0) == '/' {
        return name.to_owned();
    }
    let dl = dir.unicode_len();
    let mut r = dir.to_owned();
    if dl > 0 && dir.get_char(dl - 1) != '/' {
        r.append("/");
        proof {
            reveal_strlit("/");
        }
    }
    r.append(name);
    assert(r@ =~= join(dir@, name@));
    r
}

/// One entry of a directory listing.
pub struct DirEntry {
    /// The entry's file name; `None` when it is not valid Unicode.
    pub name: Option<String>,
    pub is_dir: bool,
}

pub open spec fn name_view(n: Option<String>) -> Option<Seq<char>> {
    match n {
        Some(s) => Some(s@),
        None => None,
    }
}

pub open spec fn entries_view(es: Seq<DirEntry>) -> Seq<(Option<Seq<char>>, bool)> {
    es.map_values(|e: DirEntry| (name_view(e.name), e.is_dir))
}

/// A scan in progress: directories still to visit, multi-disc albums whose
/// discs are still to list, and the index built so far.
pub struct ScanState {
    pub to_visit: Seq<Seq<char>>,
    pub albums: Seq<Seq<char>>,
    pub index: Map<Seq<char>, Seq<char>>,
}

pub open spec fn initial_scan(root: Seq<char>) -> ScanState {
    ScanState { to_visit: seq![root], albums: Seq::empty(), index: Map::empty() }
}

/// One child of `dir` seen while walking: an album of one disc is indexed,
/// an album of several waits for its discs, and any other directory is a
/// folder to visit. Entries that are not directories are passed over.
pub open spec fn walk_entry(
    s: Option<ScanState>,
    dir: Seq<char>,
    e: (Option<Seq<char>>, bool),
) -> Option<ScanState> {
    match s {
        None => None,
        Some(st) => if !e.1 {
            Some(st)
        } else {
            match e.0 {
                None => None,
                Some(n) => {
                    let path = join(dir, n);
                    if is_album(n) {
                        if album_disc_count(n) > 1 {
                            Some(ScanState { albums: st.albums.push(path), ..st })
                        } else {
                            Some(ScanState { index: st.index.insert(album_catalog(n), path), ..st })
                        }
                    } else {
                        Some(ScanState { to_visit: st.to_visit.push(path), ..st })
                    }
                },
            }
        },
    }
}

pub open spec fn walk_dir(
    s: ScanState,
    dir: Seq<char>,
    es: Seq<(Option<Seq<char>>, bool)>,
) -> Option<ScanState>
    decreases es.len(),
{
    if es.len() == 0 {
        Some(s)
    } else {
        walk_entry(walk_dir(s, dir, es.drop_last()), dir, es.last())
    }
}

/// One child of a multi-disc album: a directory named as a disc is indexed.
pub open spec fn disc_entry(
    s: Option<ScanState>,
    album: Seq<char>,
    e: (Option<Seq<char>>, bool),
) -> Option<ScanState> {
    match s {
        None => None,
        Some(st) => if !e.1 {
            Some(st)
        } else {
            match e.0 {
                None => None,
                Some(n) => if is_disc(n) {
                    Some(ScanState { index: st.index.insert(disc_catalog(n), join(album, n)), ..st })
                } else {
                    Some(st)
                },
            }
        },
    }
}

pub open spec fn walk_discs(
    s: ScanState,
    album: Seq<char>,
    es: Seq<(Option<Seq<char>>, bool)>,
) -> Option<ScanState>
    decreases es.len(),
{
    if es.len() == 0 {
        Some(s)
    } else {
        disc_entry(walk_discs(s, album, es.drop_last()), album, es.last())
    }
}

/// What a scan asks for next.
pub enum ScanRequest {
    /// List this folder and hand its entries to `Scan::on_dir_listing`.
    ListDir(String),
    /// List this multi-disc album and hand its entries to `Scan::on_disc_listing`.
    ListDiscs(String),
    /// The scan is complete.
    Done,
}

pub enum Request {
    ListDir(Seq<char>),
    ListDiscs(Seq<char>),
    Done,
}

pub open spec fn request_view(r: ScanRequest) -> Request {
    match r {
        ScanRequest::ListDir(p) => Request::ListDir(p@),
        ScanRequest::ListDiscs(p) => Request::ListDiscs(p@),
        ScanRequest::Done => Request::Done,
    }
}

/// Albums waiting for their discs come first; then the most recently found folder.
pub open spec fn next_request(s: ScanState) -> Request {
    if s.albums.len() > 0 {
        Request::ListDiscs(s.albums.last())
    } else if s.to_visit.len() > 0 {
        Request::ListDir(s.to_visit.last())
    } else {
        Request::Done
    }
}

pub open spec fn after_request(s: ScanState) -> ScanState {
    if s.albums.len() > 0 {
        ScanState { albums: s.albums.drop_last(), ..s }
    } else if s.to_visit.len() > 0 {
        ScanState { to_visit: s.to_visit.drop_last(), ..s }
    } else {
        s
    }
}

/// A lenient scan of a library tree. The root itself is never read as an album.
pub struct Scan {
    to_visit: Vec<String>,
    albums: Vec<String>,
    index: CatalogIndex,
}

impl Scan {
    pub closed spec fn view(&self) -> ScanState {
        ScanState {
            to_visit: self.to_visit@.map_values(|p: String| p@),
            albums: self.albums@.map_values(|p: String| p@),
            index: self.index@,
        }
    }

    pub closed spec fn wf(&self) -> bool {
        self.index.wf()
    }

    pub fn new(root: &str) -> (r: Scan)
        ensures
            r.wf(),
            r@ == initial_scan(root@),
    {
        let mut to_visit: Vec<String> = Vec::new();
        to_visit.push(root.to_owned());
        let r = Scan { to_visit, albums: Vec::new(), index: CatalogIndex::new() };
        assert(r@.to_visit =~= seq![root@]);
        assert(r@.albums =~= Seq::<Seq<char>>::empty());
        r
    }

    /// Takes the next directory to list off the scan.
    pub fn next_request(&mut self) -> (r: ScanRequest)
        requires
            old(self).wf(),
        ensures
            final(self).wf(),
            request_view(r) == next_request(old(self)@),
            final(self)@ == after_request(old(self)@),
    {
        if self.albums.len() > 0 {
            let p = self.albums.pop().unwrap();
            assert(self@.albums =~= old(self)@.albums.drop_last());
            ScanRequest::ListDiscs(p)
        } else if self.to_visit.len() > 0 {
            let p = self.to_visit.pop().unwrap();
            assert(self@.to_visit =~= old(self)@.to_visit.drop_last());
            ScanRequest::ListDir(p)
        } else {
            ScanRequest::Done
        }
    }

    /// Takes in the entries of the folder `dir`.
    pub fn on_dir_listing(&mut self, dir: &str, entries: &Vec<DirEntry>) -> (r: Result<
        (),
        BackendError,
    >)
        requires
            old(self).wf(),
        ensures
            final(self).wf(),
            match walk_dir(old(self)@, dir@, entries_view(entries@)) {
                Some(s) => r is Ok && final(self)@ == s,
                None => r == Err::<(), BackendError>(BackendError::InvalidPath),
            },
    {
        let ghost es = entries_view(entries@);
        let mut i: usize = 0;
        while i < entries.len()
            invariant
                i <= entries@.len(),
                es == entries_view(entries@),
                self.wf(),
                walk_dir(old(self)@, dir@, es.take(i as int)) == Some(self@),
            decreases entries@.len() - i,
        {
            assert(es.take(i + 1).drop_last() =~= es.take(i as int));
            let e = &entries[i];
            if e.is_dir {
                match &e.name {
                    None => {
                        proof {
                            lemma_walk_dir_fails(old(self)@, dir@, es, (i + 1) as int);
                        }
                        return Err(BackendError::InvalidPath);
                    },
                    Some(n) => {
                        let path = join_path(dir, n.as_str());
                        match parse_album(n.as_str()) {
                            Ok(info) => {
                                if info.disc_count > 1 {
                                    self.albums.push(path);
                                } else {
                                    self.index.insert(info.catalog, path);
                                }
                            },
                            Err(_) => {
                                self.to_visit.push(path);
                            },
                        }
                    },
                }
            }
            i = i + 1;
            assert(self@.to_visit =~= walk_dir(old(self)@, dir@, es.take(i as int))->0.to_visit);
            assert(self@.albums =~= walk_dir(old(self)@, dir@, es.take(i as int))->0.albums);
        }
        assert(es.take(i as int) =~= es);
        Ok(())
    }

    /// Takes in the entries of the multi-disc album `album`.
    pub fn on_disc_listing(&mut self, album: &str, entries: &Vec<DirEntry>) -> (r: Result<
        (),
        BackendError,
    >)
        requires
            old(self).wf(),
        ensures
            final(self).wf(),
            match walk_discs(old(self)@, album@, entries_view(entries@)) {
                Some(s) => r is Ok && final(self)@ == s,
                None => r == Err::<(), BackendError>(BackendError::InvalidPath),
            },
    {
        let ghost es = entries_view(entries@);
        let mut i: usize = 0;
        while i < entries.len()
            invariant
                i <= entries@.len(),
                es == entries_view(entries@),
                self.wf(),
                walk_discs(old(self)@, album@, es.take(i as int)) == Some(self@),
            decreases entries@.len() - i,
        {
            assert(es.take(i + 1).drop_last() =~= es.take(i as int));
            let e = &entries[i];
            if e.is_dir {
                match &e.name {
                    None => {
                        proof {
                            lemma_walk_discs_fails(old(self)@, album@, es, (i + 1) as int);
                        }
                        return Err(BackendError::InvalidPath);
                    },
                    Some(n) => {
                        match parse_disc(n.as_str()) {
                            Ok(info) => {
                                let path = join_path(album, n.as_str());
                                self.index.insert(info.catalog, path);
                            },
                            Err(_) => {},
                        }
                    },
                }
            }
            i = i + 1;
        }
        assert(es.take(i as int) =~= es);
        Ok(())
    }
}

proof fn lemma_walk_dir_fails(
    s: ScanState,
    dir: Seq<char>,
    es: Seq<(Option<Seq<char>>, bool)>,
    i: int,
)
    requires
        0 <= i <= es.len(),
        walk_dir(s, dir, es.take(i)) is None,
    ensures
        walk_dir(s, dir, es) is None,
    decreases es.len() - i,
{
    if i < es.len() {
        assert(es.take(i + 1).drop_last() =~= es.take(i));
        lemma_walk_dir_fails(s, dir, es, i + 1);
    } else {
        assert(es.take(i) =~= es);
    }
}

proof fn lemma_walk_discs_fails(
    s: ScanState,
    album: Seq<char>,
    es: Seq<(Option<Seq<char>>, bool)>,
    i: int,
)
    requires
        0 <= i <= es.len(),
        walk_discs(s, album, es.take(i)) is None,
    ensures
        walk_discs(s, album, es) is None,
    decreases es.len() - i,
{
    if i < es.len() {
        assert(es.take(i + 1).drop_last() =~= es.take(i));
        lemma_walk_discs_fails(s, album, es, i + 1);
    } else {
        assert(es.take(i) =~= es);
    }
}

/// The names of the directories among `es`, in order; `None` if one of them
/// is not valid Unicode.
pub open spec fn dir_names(es: Seq<(Option<Seq<char>>, bool)>) -> Option<Seq<Seq<char>>>
    decreases es.len(),
{
    if es.len() == 0 {
        Some(Seq::empty())
    } else {
        match dir_names(es.drop_last()) {
            None => None,
            Some(ns) => if !es.last().1 {
                Some(ns)
            } else {
                match es.last().0 {
                    None => None,
                    Some(n) => Some(ns.push(n)),
                }
            },
        }
    }
}

proof fn lemma_dir_names_fails(es: Seq<(Option<Seq<char>>, bool)>, i: int)
    requires
        0 <= i <= es.len(),
        dir_names(es.take(i)) is None,
    ensures
        dir_names(es) is None,
    decreases es.len() - i,
{
    if i < es.len() {
        assert(es.take(i + 1).drop_last() =~= es.take(i));
        lemma_dir_names_fails(es, i + 1);
    } else {
        assert(es.take(i) =~= es);
    }
}

/// The catalogs of a strict library: the names of the root's directories, verbatim.
pub fn strict_catalogs(entries: &Vec<DirEntry>) -> (r: Result<Vec<String>, BackendError>)
    ensures
        match dir_names(entries_view(entries@)) {
            Some(ns) => r is Ok && r->Ok_0@.map_values(|c: String| c@) == ns,
            None => r == Err::<Vec<String>, BackendError>(BackendError::InvalidPath),
        },
{
    let ghost es = entries_view(entries@);
    let mut r: Vec<String> = Vec::new();
    let mut i: usize = 0;
    while i < entries.len()
        invariant
            i <= entries@.len(),
            es == entries_view(entries@),
            dir_names(es.take(i as int)) == Some(r@.map_values(|c: String| c@)),
        decreases entries@.len() - i,
    {
        assert(es.take(i + 1).drop_last() =~= es.take(i as int));
        let e = &entries[i];
        if e.is_dir {
            match &e.name {
                None => {
                    proof {
                        lemma_dir_names_fails(es, (i + 1) as int);
                    }
                    return Err(BackendError::InvalidPath);
                },
                Some(n) => {
                    r.push(n.clone());
                },
            }
        }
        i = i + 1;
        assert(r@.map_values(|c: String| c@) =~= dir_names(es.take(i as int))->0);
    }
    assert(es.take(i as int) =~= es);
    Ok(r)
}

/// The file name that a track's file begins with: its number, at least two
/// digits wide with leading zeros, then a dot.
pub open spec fn track_prefix(track: u8) -> Seq<char> {
    if track < 10 {
        seq!['0', digit_char(track as int), '.']
    } else if track < 100 {
        seq![digit_char(track as int / 10), digit_char(track as int % 10), '.']
    } else {
        seq![
            digit_char(track as int / 100),
            digit_char((track as int / 10) % 10),
            digit_char(track as int % 10),
            '.',
        ]
    }
}

pub open spec fn digit_char(d: int) -> char {
    if d == 0 { '0' }
    else if d == 1 { '1' }
    else if d == 2 { '2' }
    else if d == 3 { '3' }
    else if d == 4 { '4' }
    else if d == 5 { '5' }
    else if d == 6 { '6' }
    else if d == 7 { '7' }
    else if d == 8 { '8' }
    else { '9' }
}

fn digit(d: u8) -> (c: char)
    requires
        d < 10,
    ensures
        c == digit_char(d as int),
{
    if d == 0 { '0' }
    else if d == 1 { '1' }
    else if d == 2 { '2' }
    else if d == 3 { '3' }
    else if d == 4 { '4' }
    else if d == 5 { '5' }
    else if d == 6 { '6' }
    else if d == 7 { '7' }
    else if d == 8 { '8' }
    else { '9' }
}

fn prefix_chars(track: u8) -> (r: Vec<char>)
    ensures
        r@ == track_prefix(track),
{
    let r = if track < 10 {
        vec!['0', digit(track), '.']
    } else if track < 100 {
        vec![digit(track / 10), digit(track % 10), '.']
    } else {
        vec![digit(track / 100), digit((track / 10) % 10), digit(track % 10), '.']
    };
    assert(r@ =~= track_prefix(track));
    r
}

pub open spec fn starts_with(s: Seq<char>, p: Seq<char>) -> bool {
    p.len() <= s.len() && s.subrange(0, p.len() as int) == p
}

fn has_prefix(s: &str, p: &Vec<char>) -> (r: bool)
    ensures
        r == starts_with(s@, p@),
{
    let n = s.unicode_len();
    if p.len() > n {
        return false;
    }
    let mut k: usize = 0;
    while k < p.len()
        invariant
            p@.len() <= n == s@.len(),
            k <= p@.len(),
            forall|j: int| 0 <= j < k ==> s@[j] == p@[j],
        decreases p@.len() - k,
    {
        if s.get_char(k) != p[k] {
            assert(s@.subrange(0, p@.len() as int)[k as int] != p@[k as int]);
            return false;
        }
        k = k + 1;
    }
    assert(s@.subrange(0, p@.len() as int) =~= p@);
    true
}

/// Where the last `.` of `s` stands, or -1 if there is none.
pub open spec fn last_dot(s: Seq<char>) -> int
    decreases s.len(),
{
    if s.len() == 0 {
        -1
    } else if s.last() == '.' {
        s.len() - 1
    } else {
        last_dot(s.drop_last())
    }
}

/// A file name's extension: what follows its last dot, or nothing.
pub open spec fn extension(s: Seq<char>) -> Seq<char> {
    if last_dot(s) <= 0 {
        Seq::empty()
    } else {
        s.subrange(last_dot(s) + 1, s.len() as int)
    }
}

fn extension_of(s: &str) -> (r: String)
    ensures
        r@ == extension(s@),
{
    let n = s.unicode_len();
    let mut i = n;
    assert(s@.subrange(0, n as int) =~= s@);
    while i > 0 && s.get_char(i - 1) != '.'
        invariant
            i <= n == s@.len(),
            last_dot(s@) == last_dot(s@.subrange(0, i as int)),
        decreases i,
    {
        assert(s@.subrange(0, i as int).drop_last() =~= s@.subrange(0, i - 1));
        i = i - 1;
    }
    proof {
        if i > 0 {
            assert(s@.subrange(0, i as int).last() == s@[i - 1]);
        }
    }
    if i <= 1 {
        String::new()
    } else {
        s.substring_char(i, n).to_owned()
    }
}

/// The file chosen to serve a track.
pub struct TrackFile {
    /// Its place in the directory listing.
    pub position: usize,
    /// Its extension, which hints at its content type.
    pub extension: String,
}

/// Picks, among the file names of a catalog's directory in listing order,
/// the first that begins with the track's prefix.
pub fn find_track(names: &Vec<String>, track: u8) -> (r: Result<TrackFile, BackendError>)
    ensures
        r is Err <==> forall|i: int| 0 <= i < names@.len() ==> !starts_with(
            #[trigger] names@[i]@,
            track_prefix(track),
        ),
        r is Err ==> r->Err_0 == BackendError::FileNotFound,
        r is Ok ==> {
            let t = r->Ok_0;
            &&& t.position < names@.len()
            &&& starts_with(names@[t.position as int]@, track_prefix(track))
            &&& forall|j: int| 0 <= j < t.position ==> !starts_with(
                #[trigger] names@[j]@,
                track_prefix(track),
            )
            &&& t.extension@ == extension(names@[t.position as int]@)
        },
{
    let p = prefix_chars(track);
    let mut i: usize = 0;
    while i < names.len()
        invariant
            i <= names@.len(),
            p@ == track_prefix(track),
            forall|j: int| 0 <= j < i ==> !starts_with(#[trigger] names@[j]@, track_prefix(track)),
        decreases names@.len() - i,
    {
        if has_prefix(names[i].as_str(), &p) {
            let extension = extension_of(names[i].as_str());
            return Ok(TrackFile { position: i, extension });
        }
        i = i + 1;
    }
    Err(BackendError::FileNotFound)
}

/// The fixed name of a catalog's cover image.
pub open spec fn cover_name() -> Seq<char> {
    seq!['c', 'o', 'v', 'e', 'r', '.', 'j', 'p', 'g']
}

/// A library on the local filesystem.
pub struct FileBackend {
    strict: bool,
    root: String,
    inner: CatalogIndex,
}

/// Where a catalog lives: in a strict library, the root's child of that name;
/// otherwise what the last scan found for it.
pub open spec fn catalog_path(
    strict: bool,
    root: Seq<char>,
    index: Map<Seq<char>, Seq<char>>,
    catalog: Seq<char>,
) -> Option<Seq<char>> {
    if strict {
        Some(join(root, catalog))
    } else if index.contains_key(catalog) {
        Some(index[catalog])
    } else {
        None
    }
}

impl FileBackend {
    pub closed spec fn spec_strict(&self) -> bool {
        self.strict
    }

    pub closed spec fn spec_root(&self) -> Seq<char> {
        self.root@
    }

    pub closed spec fn spec_index(&self) -> Map<Seq<char>, Seq<char>> {
        self.inner@
    }

    pub closed spec fn wf(&self) -> bool {
        self.inner.wf()
    }

    pub fn new(root: String, strict: bool) -> (r: FileBackend)
        ensures
            r.wf(),
            r.spec_root() == root@,
            r.spec_strict() == strict,
            r.spec_index() == Map::<Seq<char>, Seq<char>>::empty(),
    {
        FileBackend { root, strict, inner: CatalogIndex::new() }
    }

    pub fn is_strict(&self) -> (r: bool)
        ensures
            r == self.spec_strict(),
    {
        self.strict
    }

    pub fn root(&self) -> (r: &str)
        ensures
            r@ == self.spec_root(),
    {
        self.root.as_str()
    }

    /// The directory that holds `catalog`.
    pub fn get_catalog_path(&self, catalog: &str) -> (r: Result<String, BackendError>)
        requires
            self.wf(),
        ensures
            match catalog_path(self.spec_strict(), self.spec_root(), self.spec_index(), catalog@) {
                Some(p) => r is Ok && r->Ok_0@ == p,
                None => r == Err::<String, BackendError>(BackendError::UnknownCatalog),
            },
    {
        if self.strict {
            Ok(join_path(self.root.as_str(), catalog))
        } else {
            match self.inner.get(catalog) {
                Some(p) => Ok(p),
                None => Err(BackendError::UnknownCatalog),
            }
        }
    }

    /// The file that holds `catalog`'s cover image.
    pub fn get_cover_path(&self, catalog: &str) -> (r: Result<String, BackendError>)
        requires
            self.wf(),
        ensures
            match catalog_path(self.spec_strict(), self.spec_root(), self.spec_index(), catalog@) {
                Some(p) => r is Ok && r->Ok_0@ == join(p, cover_name()),
                None => r == Err::<String, BackendError>(BackendError::UnknownCatalog),
            },
    {
        let dir = self.get_catalog_path(catalog)?;
        let name = "cover.jpg";
        proof {
            reveal_strlit("cover.jpg");
        }
        assert(name@ =~= cover_name());
        Ok(join_path(dir.as_str(), name))
    }

    /// Starts a scan of this library's tree.
    pub fn begin_refresh(&self) -> (r: Scan)
        ensures
            r.wf(),
            r@ == initial_scan(self.spec_root()),
    {
        Scan::new(self.root.as_str())
    }

    /// Replaces the index, all at once, by what a finished scan built, and
    /// returns the catalogs now known, each once.
    pub fn finish_refresh(&mut self, scan: Scan) -> (r: Vec<String>)
        requires
            old(self).wf(),
            scan.wf(),
        ensures
            final(self).wf(),
            final(self).spec_index() == scan@.index,
            final(self).spec_root() == old(self).spec_root(),
            final(self).spec_strict() == old(self).spec_strict(),
            forall|i: int, j: int| 0 <= i < j < r@.len() ==> r@[i]@ != r@[j]@,
            forall|i: int| 0 <= i < r@.len() ==> scan@.index.contains_key(#[trigger] r@[i]@),
            forall|k: Seq<char>| #[trigger] scan@.index.contains_key(k) ==> exists|i: int|
                0 <= i < r@.len() && r@[i]@ == k,
    {
        self.inner = scan.index;
        self.inner.keys()
    }
}

/// A scan run to its end over a tree whose folders list as `tree` says, in
/// at most `fuel` requests; `None` if it fails or needs more.
pub open spec fn scan_run(
    tree: Map<Seq<char>, Seq<(Option<Seq<char>>, bool)>>,
    s: ScanState,
    fuel: nat,
) -> Option<ScanState>
    decreases fuel,
{
    if fuel == 0 {
        None
    } else {
        match next_request(s) {
            Request::Done => Some(s),
            Request::ListDir(p) => if tree.contains_key(p) {
                match walk_dir(after_request(s), p, tree[p]) {
                    Some(w) => scan_run(tree, w, (fuel - 1) as nat),
                    None => None,
                }
            } else {
                None
            },
            Request::ListDiscs(p) => if tree.contains_key(p) {
                match walk_discs(after_request(s), p, tree[p]) {
                    Some(w) => scan_run(tree, w, (fuel - 1) as nat),
                    None => None,
                }
            } else {
                None
            },
        }
    }
}

proof fn lemma_scan_run_fuel(
    tree: Map<Seq<char>, Seq<(Option<Seq<char>>, bool)>>,
    s: ScanState,
    f1: nat,
    f2: nat,
)
    requires
        scan_run(tree, s, f1) is Some,
        f1 <= f2,
    ensures
        scan_run(tree, s, f2) == scan_run(tree, s, f1),
    decreases f1,
{
    if f1 > 0 {
        match next_request(s) {
            Request::Done => {},
            Request::ListDir(p) => {
                let w = walk_dir(after_request(s), p, tree[p])->0;
                lemma_scan_run_fuel(tree, w, (f1 - 1) as nat, (f2 - 1) as nat);
            },
            Request::ListDiscs(p) => {
                let w = walk_discs(after_request(s), p, tree[p])->0;
                lemma_scan_run_fuel(tree, w, (f1 - 1) as nat, (f2 - 1) as nat);
            },
        }
    }
}

/// Refreshing twice over an unchanged tree finds the same catalogs at the
/// same paths. A refresh starts from `initial_scan` of the root alone,
/// whatever the index held before, so two complete scans of one tree agree
/// however many requests each was allowed.
pub proof fn lemma_refresh_idempotent(
    root: Seq<char>,
    tree: Map<Seq<char>, Seq<(Option<Seq<char>>, bool)>>,
    fuel1: nat,
    fuel2: nat,
)
    requires
        scan_run(tree, initial_scan(root), fuel1) is Some,
        scan_run(tree, initial_scan(root), fuel2) is Some,
    ensures
        scan_run(tree, initial_scan(root), fuel1)->0.index
            == scan_run(tree, initial_scan(root), fuel2)->0.index,
{
    if fuel1 <= fuel2 {
        lemma_scan_run_fuel(tree, initial_scan(root), fuel1, fuel2);
    } else {
        lemma_scan_run_fuel(tree, initial_scan(root), fuel2, fuel1);
    }
}

/// A folder whose child directories are all albums of one disc, with
/// distinct catalogs.
pub open spec fn flat_listing(es: Seq<(Option<Seq<char>>, bool)>) -> bool {
    &&& forall|i: int|
        0 <= i < es.len() ==> {
            &&& (#[trigger] es[i]).1
            &&& es[i].0 is Some
            &&& is_album(es[i].0->0)
            &&& album_disc_count(es[i].0->0) <= 1
        }
    &&& forall|i: int, j: int|
        0 <= i < j < es.len() ==> album_catalog((#[trigger] es[i]).0->0) != album_catalog(
            (#[trigger] es[j]).0->0,
        )
}

proof fn lemma_flat_walk(s: ScanState, dir: Seq<char>, es: Seq<(Option<Seq<char>>, bool)>)
    requires
        flat_listing(es),
    ensures
        walk_dir(s, dir, es) is Some,
        walk_dir(s, dir, es)->0.to_visit == s.to_visit,
        walk_dir(s, dir, es)->0.albums == s.albums,
        forall|i: int|
            0 <= i < es.len() ==> {
                let c = album_catalog((#[trigger] es[i]).0->0);
                &&& walk_dir(s, dir, es)->0.index.contains_key(c)
                &&& walk_dir(s, dir, es)->0.index[c] == join(dir, es[i].0->0)
            },
    decreases es.len(),
{
    if es.len() > 0 {
        let d = es.drop_last();
        assert(flat_listing(d)) by {
            assert forall|i: int, j: int| 0 <= i < j < d.len() implies album_catalog(
                (#[trigger] d[i]).0->0,
            ) != album_catalog((#[trigger] d[j]).0->0) by {
                assert(d[i] == es[i] && d[j] == es[j]);
            }
        }
        lemma_flat_walk(s, dir, d);
        let last = es.len() - 1;
        assert(es[last].1 && is_album(es[last].0->0));
        assert forall|i: int| 0 <= i < es.len() implies {
            let c = album_catalog((#[trigger] es[i]).0->0);
            &&& walk_dir(s, dir, es)->0.index.contains_key(c)
            &&& walk_dir(s, dir, es)->0.index[c] == join(dir, es[i].0->0)
        } by {
            if i < last {
                assert(d[i] == es[i]);
                assert(album_catalog(es[i].0->0) != album_catalog(es[last].0->0));
            }
        }
    }
}

/// In a flat library, where every directory under the root is an album of
/// one disc, the two modes resolve an album to the same directory: the
/// lenient scan files each album under its parsed catalog at the path that
/// the strict mode gives for the directory's own name.
pub proof fn lemma_modes_agree(
    root: Seq<char>,
    tree: Map<Seq<char>, Seq<(Option<Seq<char>>, bool)>>,
    fuel: nat,
    strict_index: Map<Seq<char>, Seq<char>>,
)
    requires
        tree.contains_key(root),
        flat_listing(tree[root]),
        fuel >= 2,
    ensures
        scan_run(tree, initial_scan(root), fuel) is Some,
        forall|i: int|
            0 <= i < tree[root].len() ==> {
                let n = (#[trigger] tree[root][i]).0->0;
                let lenient = scan_run(tree, initial_scan(root), fuel)->0.index;
                &&& catalog_path(false, root, lenient, album_catalog(n)) == Some(join(root, n))
                &&& catalog_path(true, root, strict_index, n) == Some(join(root, n))
            },
{
    let s0 = initial_scan(root);
    let s1 = after_request(s0);
    assert(s1.to_visit =~= Seq::<Seq<char>>::empty());
    lemma_flat_walk(s1, root, tree[root]);
    let w = walk_dir(s1, root, tree[root])->0;
    assert(next_request(w) == Request::Done);
    assert(scan_run(tree, w, (fuel - 1) as nat) == Some(w));
    assert(scan_run(tree, s0, fuel) == Some(w));
}

/// A multi-disc album under the root whose two child directories are discs
/// yields the two discs as catalogs, and nothing for the album itself.
pub proof fn lemma_discs_expand(
    root: Seq<char>,
    album: Seq<char>,
    disc1: Seq<char>,
    disc2: Seq<char>,
    tree: Map<Seq<char>, Seq<(Option<Seq<char>>, bool)>>,
    fuel: nat,
)
    requires
        is_album(album),
        album_disc_count(album) == 2,
        is_disc(disc1),
        is_disc(disc2),
        disc_catalog(disc1) != disc_catalog(disc2),
        tree.contains_key(root),
        tree[root] == seq![(Some(album), true)],
        tree.contains_key(join(root, album)),
        tree[join(root, album)] == seq![(Some(disc1), true), (Some(disc2), true)],
        fuel >= 3,
    ensures
        scan_run(tree, initial_scan(root), fuel) is Some,
        scan_run(tree, initial_scan(root), fuel)->0.index == map![
            disc_catalog(disc1) => join(join(root, album), disc1),
            disc_catalog(disc2) => join(join(root, album), disc2),
        ],
{
    let a = join(root, album);
    let s0 = initial_scan(root);
    let s1 = after_request(s0);
    let es = tree[root];
    assert(es.drop_last() =~= Seq::<(Option<Seq<char>>, bool)>::empty());
    assert(s1.to_visit =~= Seq::<Seq<char>>::empty());
    assert(s1.albums =~= Seq::<Seq<char>>::empty());
    assert(walk_dir(s1, root, es.drop_last()) == Some(s1));
    assert(es.last() == (Some(album), true));
    assert(!(album_disc_count(album) <= 1));
    let w1 = walk_dir(s1, root, es)->0;
    assert(w1.albums =~= seq![a]);
    assert(w1.to_visit =~= Seq::<Seq<char>>::empty());
    assert(w1.index == Map::<Seq<char>, Seq<char>>::empty());
    let ds = tree[a];
    assert(ds.drop_last() =~= seq![(Some(disc1), true)]);
    assert(ds.drop_last().drop_last() =~= Seq::<(Option<Seq<char>>, bool)>::empty());
    let s2 = after_request(w1);
    assert(s2.albums =~= Seq::<Seq<char>>::empty());
    assert(s2.to_visit =~= Seq::<Seq<char>>::empty());
    let w0 = walk_discs(s2, a, ds.drop_last().drop_last());
    assert(w0 == Some(s2));
    let wa = walk_discs(s2, a, ds.drop_last());
    assert(ds.drop_last().last() == (Some(disc1), true));
    assert(wa == disc_entry(w0, a, (Some(disc1), true)));
    assert(wa is Some && wa->0.albums == s2.albums && wa->0.to_visit == s2.to_visit);
    assert(ds.last() == (Some(disc2), true));
    let w2 = walk_discs(s2, a, ds)->0;
    assert(w2.albums == s2.albums && w2.to_visit == s2.to_visit);
    assert(next_request(w2) == Request::Done);
    assert(scan_run(tree, w2, (fuel - 2) as nat) == Some(w2));
    assert(scan_run(tree, w1, (fuel - 1) as nat) == Some(w2));
    assert(w2.index =~= map![
        disc_catalog(disc1) => join(a, disc1),
        disc_catalog(disc2) => join(a, disc2),
    ]);
}

} // verus!
