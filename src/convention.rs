//! The directory naming convention of the library.
//!
//! An album directory is named `[DATE][CATALOG] TITLE`, optionally followed by
//! ` [N Discs]`; DATE is six or eight ASCII digits (`YYMMDD` or `YYYYMMDD`) and
//! CATALOG holds no `]`. A disc directory inside a multi-disc album is named
//! `[CATALOG] TITLE [Disc N]`.
use vstd::prelude::*;
use vstd::string::*;

verus! {

pub open spec fn is_digit(c: char) -> bool {
    '0' <= c && c <= '9'
}

pub open spec fn all_digits(s: Seq<char>) -> bool {
    forall|i: int| 0 <= i < s.len() ==> is_digit(#[trigger] s[i])
}

pub open spec fn digit_value(c: char) -> int {
    (c as u32) as int - ('0' as u32) as int
}

/// The decimal value of a run of digits.
pub open spec fn number(s: Seq<char>) -> int
    decreases s.len(),
{
    if s.len() == 0 {
        0
    } else {
        number(s.drop_last()) * 10 + digit_value(s.last())
    }
}

/// The first position at or after `from` that holds `]`, or the length if none does.
pub open spec fn first_close(s: Seq<char>, from: int) -> int
    decreases s.len() - from,
{
    if from < 0 || from >= s.len() {
        s.len() as int
    } else if s[from] == ']' {
        from
    } else {
        first_close(s, from + 1)
    }
}

/// Where the run of digits that ends just before `end` starts.
pub open spec fn digit_run_start(s: Seq<char>, end: int) -> int
    decreases end,
{
    if end <= 0 || end > s.len() || !is_digit(s[end - 1]) {
        end
    } else {
        digit_run_start(s, end - 1)
    }
}

pub open spec fn discs_tail() -> Seq<char> {
    seq![' ', 'D', 'i', 's', 'c', 's', ']']
}

pub open spec fn disc_mark() -> Seq<char> {
    seq![' ', '[', 'D', 'i', 's', 'c', ' ']
}

// ---- albums ----

pub open spec fn date_end(s: Seq<char>) -> int {
    first_close(s, 1)
}

pub open spec fn album_catalog_end(s: Seq<char>) -> int {
    first_close(s, date_end(s) + 2)
}

pub open spec fn album_head_ok(s: Seq<char>) -> bool {
    let d = date_end(s);
    let c = album_catalog_end(s);
    &&& s.len() > 0 && s[0] == '['
    &&& d == 7 || d == 9
    &&& all_digits(s.subrange(1, d))
    &&& d + 1 < s.len() && s[d + 1] == '['
    &&& d + 2 < c && c + 2 < s.len()
    &&& s[c + 1] == ' '
}

/// What follows `[DATE][CATALOG] `.
pub open spec fn album_rest(s: Seq<char>) -> Seq<char> {
    s.subrange(album_catalog_end(s) + 2, s.len() as int)
}

pub open spec fn discs_count_start(r: Seq<char>) -> int {
    digit_run_start(r, r.len() - 7)
}

/// The rest ends with ` [N Discs]` after a title of at least one character.
pub open spec fn has_discs_suffix(r: Seq<char>) -> bool {
    let b = r.len() - 7;
    let p = discs_count_start(r);
    &&& r.len() >= 7
    &&& r.subrange(b, r.len() as int) == discs_tail()
    &&& 3 <= p < b
    &&& r[p - 1] == '[' && r[p - 2] == ' '
}

pub open spec fn album_title(s: Seq<char>) -> Seq<char> {
    let r = album_rest(s);
    if has_discs_suffix(r) {
        r.subrange(0, discs_count_start(r) - 2)
    } else {
        r
    }
}

pub open spec fn album_disc_count(s: Seq<char>) -> int {
    let r = album_rest(s);
    if has_discs_suffix(r) {
        number(r.subrange(discs_count_start(r), r.len() - 7))
    } else {
        1
    }
}

pub open spec fn album_catalog(s: Seq<char>) -> Seq<char> {
    s.subrange(date_end(s) + 2, album_catalog_end(s))
}

/// `s` names an album, with a disc count that fits in 32 bits.
pub open spec fn is_album(s: Seq<char>) -> bool {
    album_head_ok(s) && album_disc_count(s) <= u32::MAX
}

pub open spec fn album_year(s: Seq<char>) -> int {
    if date_end(s) == 7 {
        2000 + number(s.subrange(1, 3))
    } else {
        number(s.subrange(1, 5))
    }
}

pub open spec fn album_month(s: Seq<char>) -> int {
    number(s.subrange(date_end(s) - 4, date_end(s) - 2))
}

pub open spec fn album_day(s: Seq<char>) -> int {
    number(s.subrange(date_end(s) - 2, date_end(s)))
}

// ---- discs ----

pub open spec fn disc_catalog_end(s: Seq<char>) -> int {
    first_close(s, 1)
}

pub open spec fn disc_rest(s: Seq<char>) -> Seq<char> {
    s.subrange(disc_catalog_end(s) + 2, s.len() as int)
}

pub open spec fn disc_index_start(r: Seq<char>) -> int {
    digit_run_start(r, r.len() - 1)
}

pub open spec fn disc_head_ok(s: Seq<char>) -> bool {
    let c = disc_catalog_end(s);
    &&& s.len() > 0 && s[0] == '['
    &&& 1 < c && c + 2 < s.len()
    &&& s[c + 1] == ' '
}

pub open spec fn disc_tail_ok(r: Seq<char>) -> bool {
    let b = r.len() - 1;
    let p = disc_index_start(r);
    &&& r.len() >= 1 && r[b] == ']'
    &&& 8 <= p < b
    &&& r.subrange(p - 7, p) == disc_mark()
}

pub open spec fn disc_catalog(s: Seq<char>) -> Seq<char> {
    s.subrange(1, disc_catalog_end(s))
}

pub open spec fn disc_title(s: Seq<char>) -> Seq<char> {
    let r = disc_rest(s);
    r.subrange(0, disc_index_start(r) - 7)
}

pub open spec fn disc_index(s: Seq<char>) -> int {
    let r = disc_rest(s);
    number(r.subrange(disc_index_start(r), r.len() - 1))
}

/// `s` names a disc, with an index that fits in 32 bits.
pub open spec fn is_disc(s: Seq<char>) -> bool {
    disc_head_ok(s) && disc_tail_ok(disc_rest(s)) && disc_index(s) <= u32::MAX
}

// ---- executable parsing ----

/// A release date as written in an album directory name. A two-digit year
/// is read as a year of the 2000s.
#[derive(Clone, Copy, Debug, PartialEq, Eq, Structural)]
pub struct ReleaseDate {
    pub year: u16,
    pub month: u8,
    pub day: u8,
}

/// What an album directory name holds.
pub struct AlbumInfo {
    pub release_date: ReleaseDate,
    pub catalog: String,
    pub title: String,
    pub disc_count: u32,
}

/// What a disc directory name holds.
pub struct DiscInfo {
    pub catalog: String,
    pub title: String,
    pub index: u32,
}

#[derive(Clone, Copy, Debug, PartialEq, Eq, Structural)]
pub enum ConventionError {
    NotAnAlbum,
    NotADisc,
}

fn chars_of(s: &str) -> (r: Vec<char>)
    ensures
        r@ == s@,
{
    let n = s.unicode_len();
    let mut r: Vec<char> = Vec::new();
    let mut i: usize = 0;
    while i < n
        invariant
            n == s@.len(),
            i <= n,
            r@ == s@.subrange(0, i as int),
        decreases n - i,
    {
        r.push(s.get_char(i));
        i = i + 1;
        assert(r@ =~= s@.subrange(0, i as int));
    }
    assert(r@ =~= s@);
    r
}

fn find_close(cs: &Vec<char>, from: usize) -> (r: usize)
    requires
        from <= cs@.len(),
    ensures
        r as int == first_close(cs@, from as int),
        from <= r <= cs@.len(),
{
    let mut i = from;
    while i < cs.len() && cs[i] != ']'
        invariant
            from <= i <= cs@.len(),
            first_close(cs@, from as int) == first_close(cs@, i as int),
        decreases cs@.len() - i,
    {
        i = i + 1;
    }
    i
}

fn is_digit_char(c: char) -> (r: bool)
    ensures
        r == is_digit(c),
{
    '0' <= c && c <= '9'
}

fn run_start(cs: &Vec<char>, end: usize) -> (r: usize)
    requires
        end <= cs@.len(),
    ensures
        r as int == digit_run_start(cs@, end as int),
        r <= end,
        all_digits(cs@.subrange(r as int, end as int)),
{
    let mut i = end;
    while i > 0 && is_digit_char(cs[i - 1])
        invariant
            i <= end <= cs@.len(),
            digit_run_start(cs@, end as int) == digit_run_start(cs@, i as int),
            all_digits(cs@.subrange(i as int, end as int)),
        decreases i,
    {
        proof {
            let t = cs@.subrange(i - 1, end as int);
            assert forall|k: int| 0 <= k < t.len() implies is_digit(#[trigger] t[k]) by {
                if k > 0 {
                    assert(t[k] == cs@.subrange(i as int, end as int)[k - 1]);
                }
            }
        }
        i = i - 1;
    }
    i
}

fn digits_in(cs: &Vec<char>, a: usize, b: usize) -> (r: bool)
    requires
        a <= b <= cs@.len(),
    ensures
        r == all_digits(cs@.subrange(a as int, b as int)),
{
    let mut i = a;
    while i < b
        invariant
            a <= i <= b <= cs@.len(),
            all_digits(cs@.subrange(a as int, i as int)),
        decreases b - i,
    {
        if !is_digit_char(cs[i]) {
            assert(cs@.subrange(a as int, b as int)[i - a] == cs@[i as int]);
            return false;
        }
        i = i + 1;
        assert(forall|k: int| 0 <= k < i - a ==> cs@.subrange(a as int, i as int)[k]
            == #[trigger] cs@.subrange(a as int, (i - 1) as int).push(cs@[i - 1])[k]);
    }
    true
}

proof fn lemma_number_step(s: Seq<char>, a: int, i: int)
    requires
        0 <= a <= i < s.len(),
    ensures
        number(s.subrange(a, i + 1)) == number(s.subrange(a, i)) * 10 + digit_value(s[i]),
{
    assert(s.subrange(a, i + 1).drop_last() =~= s.subrange(a, i));
}

proof fn lemma_number_grows(s: Seq<char>, a: int, i: int, j: int)
    requires
        0 <= a <= i <= j <= s.len(),
        all_digits(s.subrange(a, j)),
    ensures
        number(s.subrange(a, i)) <= number(s.subrange(a, j)),
    decreases j - i,
{
    if i < j {
        lemma_number_grows(s, a, i, j - 1);
        lemma_number_step(s, a, j - 1);
        assert(is_digit(s.subrange(a, j)[j - 1 - a]));
        assert(number(s.subrange(a, j - 1)) >= 0) by {
            lemma_number_nonneg(s.subrange(a, j - 1));
        }
        assert(s.subrange(a, j - 1) =~= s.subrange(a, j).subrange(0, j - 1 - a));
        lemma_digits_prefix(s.subrange(a, j), j - 1 - a);
    }
}

proof fn lemma_digits_prefix(s: Seq<char>, k: int)
    requires
        0 <= k <= s.len(),
        all_digits(s),
    ensures
        all_digits(s.subrange(0, k)),
{
    assert forall|i: int| 0 <= i < k implies is_digit(#[trigger] s.subrange(0, k)[i]) by {
        assert(s.subrange(0, k)[i] == s[i]);
    }
}

proof fn lemma_number_nonneg(s: Seq<char>)
    requires
        all_digits(s),
    ensures
        number(s) >= 0,
    decreases s.len(),
{
    if s.len() > 0 {
        lemma_digits_prefix(s, s.len() - 1);
        assert(s.drop_last() =~= s.subrange(0, s.len() - 1));
        lemma_number_nonneg(s.drop_last());
        assert(is_digit(s[s.len() - 1]));
    }
}

proof fn lemma_digits_sub(s: Seq<char>, a: int, b: int)
    requires
        0 <= a <= b <= s.len(),
        all_digits(s.subrange(a, b)),
    ensures
        forall|x: int, y: int|
            a <= x <= y <= b ==> #[trigger] all_digits(s.subrange(x, y)),
{
    assert forall|x: int, y: int| a <= x <= y <= b implies #[trigger] all_digits(s.subrange(x, y)) by {
        assert forall|i: int| 0 <= i < y - x implies is_digit(#[trigger] s.subrange(x, y)[i]) by {
            assert(s.subrange(x, y)[i] == s.subrange(a, b)[x - a + i]);
        }
    }
}

pub open spec fn pow10(n: nat) -> int
    decreases n,
{
    if n == 0 {
        1
    } else {
        10 * pow10((n - 1) as nat)
    }
}

proof fn lemma_number_bound(s: Seq<char>)
    requires
        all_digits(s),
    ensures
        0 <= number(s) < pow10(s.len()),
    decreases s.len(),
{
    if s.len() > 0 {
        lemma_digits_prefix(s, s.len() - 1);
        assert(s.drop_last() =~= s.subrange(0, s.len() - 1));
        lemma_number_bound(s.drop_last());
        assert(is_digit(s[s.len() - 1]));
        let m = number(s.drop_last());
        let p = pow10((s.len() - 1) as nat);
        assert(m * 10 + 9 < p * 10) by (nonlinear_arith)
            requires
                m < p,
        ;
        assert(m * 10 >= 0) by (nonlinear_arith)
            requires
                m >= 0,
        ;
    }
}

proof fn lemma_run_start_shift(s: Seq<char>, ra: int, e: int)
    requires
        1 <= ra <= e <= s.len(),
        !is_digit(s[ra - 1]),
    ensures
        digit_run_start(s.subrange(ra, s.len() as int), e - ra) == digit_run_start(s, e) - ra,
    decreases e - ra,
{
    let r = s.subrange(ra, s.len() as int);
    if e > ra {
        assert(r[e - ra - 1] == s[e - 1]);
        if is_digit(s[e - 1]) {
            lemma_run_start_shift(s, ra, e - 1);
        }
    }
}

/// The value of the digits `cs[a..b]`, when it fits in 32 bits.
fn number_in(cs: &Vec<char>, a: usize, b: usize) -> (r: Option<u32>)
    requires
        a <= b <= cs@.len(),
        all_digits(cs@.subrange(a as int, b as int)),
    ensures
        r is Some <==> number(cs@.subrange(a as int, b as int)) <= u32::MAX,
        r is Some ==> r->0 as int == number(cs@.subrange(a as int, b as int)),
{
    let mut v: u64 = 0;
    let mut i = a;
    while i < b
        invariant
            a <= i <= b <= cs@.len(),
            all_digits(cs@.subrange(a as int, b as int)),
            v as int == number(cs@.subrange(a as int, i as int)),
            v <= u32::MAX,
        decreases b - i,
    {
        proof {
            lemma_number_step(cs@, a as int, i as int);
            assert(is_digit(cs@.subrange(a as int, b as int)[i - a]));
        }
        let d = (cs[i] as u32 - '0' as u32) as u64;
        let next = v * 10 + d;
        if next > u32::MAX as u64 {
            proof {
                lemma_number_grows(cs@, a as int, (i + 1) as int, b as int);
            }
            return None;
        }
        v = next;
        i = i + 1;
    }
    Some(v as u32)
}

/// Whether `cs[at..at + pat.len()]` is `pat`.
fn matches_at(cs: &Vec<char>, at: usize, pat: &[char]) -> (r: bool)
    requires
        at <= cs@.len(),
    ensures
        r == (at + pat@.len() <= cs@.len() && cs@.subrange(at as int, at + pat@.len()) == pat@),
{
    if pat.len() > cs.len() - at {
        return false;
    }
    let mut k: usize = 0;
    while k < pat.len()
        invariant
            at + pat@.len() <= cs@.len(),
            cs@.len() <= usize::MAX,
            k <= pat@.len(),
            forall|j: int| 0 <= j < k ==> cs@[at + j] == pat@[j],
        decreases pat@.len() - k,
    {
        if cs[at + k] != pat[k] {
            assert(cs@.subrange(at as int, at + pat@.len())[k as int] != pat@[k as int]);
            return false;
        }
        k = k + 1;
    }
    assert(cs@.subrange(at as int, at + pat@.len()) =~= pat@);
    true
}

fn piece(s: &str, a: usize, b: usize) -> (r: String)
    requires
        a <= b <= s@.len(),
    ensures
        r@ == s@.subrange(a as int, b as int),
{
    s.substring_char(a, b).to_owned()
}

/// Reads an album directory name.
pub fn parse_album(name: &str) -> (r: Result<AlbumInfo, ConventionError>)
    ensures
        r is Ok <==> is_album(name@),
        r is Err ==> r->Err_0 == ConventionError::NotAnAlbum,
        r is Ok ==> {
            let a = r->Ok_0;
            &&& a.catalog@ == album_catalog(name@)
            &&& a.title@ == album_title(name@)
            &&& a.disc_count as int == album_disc_count(name@)
            &&& a.release_date.year as int == album_year(name@)
            &&& a.release_date.month as int == album_month(name@)
            &&& a.release_date.day as int == album_day(name@)
        },
{
    let cs = chars_of(name);
    let n = cs.len();
    if n == 0 || cs[0] != '[' {
        return Err(ConventionError::NotAnAlbum);
    }
    let d = find_close(&cs, 1);
    if !(d == 7 || d == 9) || !digits_in(&cs, 1, d) {
        return Err(ConventionError::NotAnAlbum);
    }
    if !(d + 1 < n && cs[d + 1] == '[') {
        return Err(ConventionError::NotAnAlbum);
    }
    let c = find_close(&cs, d + 2);
    if !(d + 2 < c && n >= 2 && c < n - 2 && cs[c + 1] == ' ') {
        return Err(ConventionError::NotAnAlbum);
    }
    proof {
        assert(album_head_ok(name@));
        lemma_digits_sub(cs@, 1, d as int);
        lemma_number_bound(cs@.subrange(1, 3));
        lemma_number_bound(cs@.subrange(1, 5));
        lemma_number_bound(cs@.subrange(d - 4, d - 2));
        lemma_number_bound(cs@.subrange(d - 2, d as int));
        assert(pow10(0) == 1);
        assert(pow10(1) == 10);
        assert(pow10(2) == 100);
        assert(pow10(3) == 1000);
        assert(pow10(4) == 10000);
    }
    let year_digits = if d == 7 { number_in(&cs, 1, 3) } else { number_in(&cs, 1, 5) };
    let month = number_in(&cs, d - 4, d - 2);
    let day = number_in(&cs, d - 2, d);
    let catalog = piece(name, d + 2, c);
    let rest_at = c + 2;
    // a ` [N Discs]` suffix, when there is one
    let mut title_end = n;
    let mut discs: u32 = 1;
    let tail = [' ', 'D', 'i', 's', 'c', 's', ']'];
    assert(tail@ == discs_tail());
    let ghost r = album_rest(name@);
    assert(r =~= cs@.subrange(rest_at as int, n as int));
    if n - rest_at >= 7 && matches_at(&cs, n - 7, &tail) {
        let p = run_start(&cs, n - 7);
        proof {
            lemma_run_start_shift(cs@, rest_at as int, (n - 7) as int);
            assert(r.subrange(r.len() - 7, r.len() as int) =~= cs@.subrange(n - 7, n as int));
        }
        if p < n - 7 && p >= rest_at + 3 && cs[p - 1] == '[' && cs[p - 2] == ' ' {
            assert(has_discs_suffix(r));
            assert(r.subrange(p - rest_at, r.len() - 7) =~= cs@.subrange(p as int, n - 7));
            match number_in(&cs, p, n - 7) {
                Some(v) => {
                    discs = v;
                    title_end = p - 2;
                },
                None => {
                    return Err(ConventionError::NotAnAlbum);
                },
            }
            assert(r.subrange(0, p - rest_at - 2) =~= cs@.subrange(rest_at as int, p - 2));
        } else {
            assert(!has_discs_suffix(r));
        }
    } else {
        assert(!has_discs_suffix(r)) by {
            if r.len() >= 7 && r.subrange(r.len() - 7, r.len() as int) == discs_tail() {
                assert(r.subrange(r.len() - 7, r.len() as int) =~= cs@.subrange(n - 7, n as int));
            }
        }
    }
    let title = piece(name, rest_at, title_end);
    let year: u16 = match year_digits {
        Some(y) => if d == 7 { (2000 + y) as u16 } else { y as u16 },
        None => 0,
    };
    let month: u8 = match month { Some(m) => m as u8, None => 0 };
    let day: u8 = match day { Some(v) => v as u8, None => 0 };
    Ok(AlbumInfo { release_date: ReleaseDate { year, month, day }, catalog, title, disc_count: discs })
}

/// Reads a disc directory name.
pub fn parse_disc(name: &str) -> (r: Result<DiscInfo, ConventionError>)
    ensures
        r is Ok <==> is_disc(name@),
        r is Err ==> r->Err_0 == ConventionError::NotADisc,
        r is Ok ==> {
            let d = r->Ok_0;
            &&& d.catalog@ == disc_catalog(name@)
            &&& d.title@ == disc_title(name@)
            &&& d.index as int == disc_index(name@)
        },
{
    let cs = chars_of(name);
    let n = cs.len();
    if n == 0 || cs[0] != '[' {
        return Err(ConventionError::NotADisc);
    }
    let c = find_close(&cs, 1);
    if !(1 < c && n >= 2 && c < n - 2 && cs[c + 1] == ' ') {
        return Err(ConventionError::NotADisc);
    }
    assert(disc_head_ok(name@));
    let rest_at = c + 2;
    let ghost r = disc_rest(name@);
    assert(r =~= cs@.subrange(rest_at as int, n as int));
    if cs[n - 1] != ']' {
        assert(!disc_tail_ok(r));
        return Err(ConventionError::NotADisc);
    }
    let p = run_start(&cs, n - 1);
    proof {
        lemma_run_start_shift(cs@, rest_at as int, (n - 1) as int);
    }
    let mark = [' ', '[', 'D', 'i', 's', 'c', ' '];
    assert(mark@ == disc_mark());
    if !(p < n - 1 && p >= rest_at && p - rest_at >= 8 && matches_at(&cs, p - 7, &mark)) {
        assert(!disc_tail_ok(r)) by {
            if disc_tail_ok(r) {
                assert(r.subrange(p - rest_at - 7, p - rest_at) =~= cs@.subrange(p - 7, p as int));
            }
        }
        return Err(ConventionError::NotADisc);
    }
    assert(r.subrange(p - rest_at - 7, p - rest_at) =~= cs@.subrange(p - 7, p as int));
    assert(disc_tail_ok(r));
    assert(r.subrange(p - rest_at, r.len() - 1) =~= cs@.subrange(p as int, n - 1));
    match number_in(&cs, p, n - 1) {
        Some(index) => {
            let catalog = piece(name, 1, c);
            let title = piece(name, rest_at, p - 7);
            assert(r.subrange(0, p - rest_at - 7) =~= cs@.subrange(rest_at as int, p - 7));
            Ok(DiscInfo { catalog, title, index })
        },
        None => Err(ConventionError::NotADisc),
    }
}

} // verus!
