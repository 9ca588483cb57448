//! Tags of the metadata repository, written `type:name`, or just `name` for
//! a tag of the default type.
use vstd::prelude::*;
use vstd::string::*;

verus! {

#[derive(Clone, Copy, Debug, PartialEq, Eq, Structural)]
pub enum TagType {
    Artist,
    Group,
    Animation,
    Series,
    Project,
    Radio,
    Game,
    Organization,
    Default,
    Category,
}

#[derive(Debug, PartialEq, Eq)]
pub enum TagError {
    /// The text before `:` names no tag type.
    UnknownType(String),
}

pub open spec fn tag_type_name(t: TagType) -> Seq<char> {
    match t {
        TagType::Artist => "artist"@,
        TagType::Group => "group"@,
        TagType::Animation => "animation"@,
        TagType::Series => "series"@,
        TagType::Project => "project"@,
        TagType::Radio => "radio"@,
        TagType::Game => "game"@,
        TagType::Organization => "organization"@,
        TagType::Default => "default"@,
        TagType::Category => "category"@,
    }
}

/// The tag type written `s`, if any.
pub open spec fn tag_type_of(s: Seq<char>) -> Option<TagType> {
    if s == "artist"@ {
        Some(TagType::Artist)
    } else if s == "group"@ {
        Some(TagType::Group)
    } else if s == "animation"@ {
        Some(TagType::Animation)
    } else if s == "series"@ {
        Some(TagType::Series)
    } else if s == "project"@ {
        Some(TagType::Project)
    } else if s == "radio"@ {
        Some(TagType::Radio)
    } else if s == "game"@ {
        Some(TagType::Game)
    } else if s == "organization"@ {
        Some(TagType::Organization)
    } else if s == "default"@ {
        Some(TagType::Default)
    } else if s == "category"@ {
        Some(TagType::Category)
    } else {
        None
    }
}

fn same(a: &str, b: &str) -> (r: bool)
    ensures
        r == (a@ == b@),
{
    a.to_owned() == b.to_owned()
}

impl TagType {
    pub fn from_str(s: &str) -> (r: Result<TagType, TagError>)
        ensures
            match tag_type_of(s@) {
                Some(t) => r == Ok::<TagType, TagError>(t),
                None => r is Err && r->Err_0 is UnknownType && r->Err_0->UnknownType_0@ == s@,
            },
    {
        if same(s, "artist") {
            Ok(TagType::Artist)
        } else if same(s, "group") {
            Ok(TagType::Group)
        } else if same(s, "animation") {
            Ok(TagType::Animation)
        } else if same(s, "series") {
            Ok(TagType::Series)
        } else if same(s, "project") {
            Ok(TagType::Project)
        } else if same(s, "radio") {
            Ok(TagType::Radio)
        } else if same(s, "game") {
            Ok(TagType::Game)
        } else if same(s, "organization") {
            Ok(TagType::Organization)
        } else if same(s, "default") {
            Ok(TagType::Default)
        } else if same(s, "category") {
            Ok(TagType::Category)
        } else {
            Err(TagError::UnknownType(s.to_owned()))
        }
    }

    pub fn as_str(&self) -> (r: &'static str)
        ensures
            r@ == tag_type_name(*self),
    {
        match self {
            TagType::Artist => "artist",
            TagType::Group => "group",
            TagType::Animation => "animation",
            TagType::Series => "series",
            TagType::Project => "project",
            TagType::Radio => "radio",
            TagType::Game => "game",
            TagType::Organization => "organization",
            TagType::Default => "default",
            TagType::Category => "category",
        }
    }
}

/// Characters of the Unicode `White_Space` property.
pub open spec fn is_white_space(c: char) -> bool {
    let u = c as u32;
    (0x9 <= u && u <= 0xd) || u == 0x20 || u == 0x85 || u == 0xa0 || u == 0x1680 || (0x2000 <= u
        && u <= 0x200a) || u == 0x2028 || u == 0x2029 || u == 0x202f || u == 0x205f || u == 0x3000
}

fn white_space(c: char) -> (r: bool)
    ensures
        r == is_white_space(c),
{
    let u = c as u32;
    (0x9 <= u && u <= 0xd) || u == 0x20 || u == 0x85 || u == 0xa0 || u == 0x1680 || (0x2000 <= u
        && u <= 0x200a) || u == 0x2028 || u == 0x2029 || u == 0x202f || u == 0x205f || u == 0x3000
}

/// `s` without the white space at either end.
pub open spec fn trimmed(s: Seq<char>) -> Seq<char> {
    if trim_start(s, 0) == s.len() {
        Seq::empty()
    } else {
        s.subrange(trim_start(s, 0), trim_end(s, s.len() as int))
    }
}

pub open spec fn trim_start(s: Seq<char>, i: int) -> int
    decreases s.len() - i,
{
    if i < 0 || i >= s.len() || !is_white_space(s[i]) {
        i
    } else {
        trim_start(s, i + 1)
    }
}

pub open spec fn trim_end(s: Seq<char>, j: int) -> int
    decreases j,
{
    if j <= 0 || j > s.len() || !is_white_space(s[j - 1]) {
        j
    } else {
        trim_end(s, j - 1)
    }
}

proof fn lemma_trim_bounds(s: Seq<char>, i: int, j: int)
    requires
        0 <= i <= s.len(),
        0 <= j <= s.len(),
    ensures
        i <= trim_start(s, i) <= s.len(),
        0 <= trim_end(s, j) <= j,
    decreases s.len() - i + j,
{
    if i < s.len() && is_white_space(s[i]) {
        lemma_trim_bounds(s, i + 1, j);
    }
    if j > 0 && is_white_space(s[j - 1]) {
        lemma_trim_bounds(s, i, j - 1);
    }
}

/// `s` without leading and trailing white space.
pub fn trim(s: &str) -> (r: String)
    ensures
        r@ == trimmed(s@),
{
    let n = s.unicode_len();
    let mut i: usize = 0;
    while i < n && white_space(s.get_char(i))
        invariant
            i <= n == s@.len(),
            trim_start(s@, 0) == trim_start(s@, i as int),
            forall|k: int| 0 <= k < i ==> is_white_space(#[trigger] s@[k]),
        decreases n - i,
    {
        i = i + 1;
    }
    let mut j: usize = n;
    while j > i && white_space(s.get_char(j - 1))
        invariant
            i <= j <= n == s@.len(),
            trim_end(s@, n as int) == trim_end(s@, j as int),
            i < n ==> !is_white_space(s@[i as int]) && i < j,
        decreases j,
    {
        j = j - 1;
    }
    proof {
        lemma_trim_bounds(s@, 0, n as int);
        if i == n {
            assert(s@.subrange(i as int, j as int) =~= Seq::<char>::empty());
        }
    }
    s.substring_char(i, j).to_owned()
}

/// Where the first `:` of `s` stands, or -1 if there is none.
pub open spec fn first_colon(s: Seq<char>, from: int) -> int
    decreases s.len() - from,
{
    if from < 0 || from >= s.len() {
        -1
    } else if s[from] == ':' {
        from
    } else {
        first_colon(s, from + 1)
    }
}

/// The type of the tag written `s`: the one named before its first `:`, when
/// that text names one, else the default.
pub open spec fn parsed_type(s: Seq<char>) -> TagType {
    let k = first_colon(s, 0);
    if k >= 0 && tag_type_of(s.subrange(0, k)) is Some {
        tag_type_of(s.subrange(0, k))->0
    } else {
        TagType::Default
    }
}

/// The name of the tag written `s`: after a recognised `type:`, the rest
/// without surrounding white space; otherwise all of `s`.
pub open spec fn parsed_name(s: Seq<char>) -> Seq<char> {
    let k = first_colon(s, 0);
    if k >= 0 && tag_type_of(s.subrange(0, k)) is Some {
        trimmed(s.subrange(k + 1, s.len() as int))
    } else {
        s
    }
}

/// A reference to a tag by its name and type.
#[derive(Clone, Debug, Eq)]
pub struct TagRef {
    name: String,
    tag_type: TagType,
}

/// How a tag is written: `type:name`, or `name` alone for the default type.
pub open spec fn written_form(name: Seq<char>, t: TagType) -> Seq<char> {
    if t == TagType::Default {
        name
    } else {
        tag_type_name(t) + seq![':'] + name
    }
}

impl TagRef {
    pub closed spec fn spec_name(&self) -> Seq<char> {
        self.name@
    }

    pub closed spec fn spec_tag_type(&self) -> TagType {
        self.tag_type
    }

    pub fn new(name: String, tag_type: TagType) -> (r: TagRef)
        ensures
            r.spec_name() == name@,
            r.spec_tag_type() == tag_type,
    {
        TagRef { name, tag_type }
    }

    /// Reads a tag written `type:name` or `name`. Text before the first `:`
    /// that names no type leaves the whole text as the name, of the default type.
    pub fn from_str(text: String) -> (r: Result<TagRef, TagError>)
        ensures
            r is Ok,
            r->Ok_0.spec_name() == parsed_name(text@),
            r->Ok_0.spec_tag_type() == parsed_type(text@),
    {
        let n = text.as_str().unicode_len();
        let mut k: usize = 0;
        while k < n && text.as_str().get_char(k) != ':'
            invariant
                k <= n == text@.len(),
                first_colon(text@, 0) == first_colon(text@, k as int),
            decreases n - k,
        {
            k = k + 1;
        }
        if k < n {
            let head = text.as_str().substring_char(0, k);
            match TagType::from_str(head) {
                Ok(t) => {
                    let rest = text.as_str().substring_char(k + 1, n);
                    return Ok(TagRef { name: trim(rest), tag_type: t });
                },
                Err(_) => {},
            }
        }
        Ok(TagRef { name: text, tag_type: TagType::Default })
    }

    /// A tag of the default type.
    pub fn simple(name: String) -> (r: TagRef)
        ensures
            r.spec_name() == name@,
            r.spec_tag_type() == TagType::Default,
    {
        TagRef { name, tag_type: TagType::Default }
    }

    pub fn name(&self) -> (r: &str)
        ensures
            r@ == self.spec_name(),
    {
        self.name.as_str()
    }

    pub fn tag_type(&self) -> (r: &TagType)
        ensures
            *r == self.spec_tag_type(),
    {
        &self.tag_type
    }

    /// An owned copy of this reference.
    pub fn full_clone(&self) -> (r: TagRef)
        ensures
            r.spec_name() == self.spec_name(),
            r.spec_tag_type() == self.spec_tag_type(),
    {
        TagRef { name: self.name.as_str().to_owned(), tag_type: self.tag_type }
    }

    /// The written form of this tag.
    pub fn to_string(&self) -> (r: String)
        ensures
            r@ == written_form(self.spec_name(), self.spec_tag_type()),
    {
        match self.tag_type {
            TagType::Default => self.name.as_str().to_owned(),
            t => {
                let mut r = t.as_str().to_owned();
                r.append(":");
                proof {
                    reveal_strlit(":");
                }
                r.append(self.name.as_str());
                assert(r@ =~= written_form(self.spec_name(), self.spec_tag_type()));
                r
            },
        }
    }
}

/// Whether a reference to `a` matches `b`: their names agree, and their types
/// agree unless `a` is of the default type, which matches a tag of any type.
pub open spec fn tag_matches(a: TagRef, b: TagRef) -> bool {
    (a.spec_tag_type() == TagType::Default || a.spec_tag_type() == b.spec_tag_type())
        && a.spec_name() == b.spec_name()
}

impl PartialEq for TagRef {
    fn eq(&self, other: &TagRef) -> (r: bool) {
        let type_match = match self.tag_type {
            TagType::Default => true,
            t => t == other.tag_type,
        };
        type_match && self.name == other.name
    }
}

impl vstd::std_specs::cmp::PartialEqSpecImpl for TagRef {
    open spec fn obeys_eq_spec() -> bool {
        true
    }

    open spec fn eq_spec(&self, other: &TagRef) -> bool {
        tag_matches(*self, *other)
    }
}

/// A tag reference read from, and written as, its text form.
#[derive(Debug, PartialEq, Eq)]
pub struct TagString(pub TagRef);

impl TagString {
    pub closed spec fn spec_inner(&self) -> TagRef {
        self.0
    }

    pub fn inner(&self) -> (r: &TagRef)
        ensures
            *r == self.spec_inner(),
    {
        &self.0
    }

    pub fn to_string(&self) -> (r: String)
        ensures
            r@ == written_form(self.spec_inner().spec_name(), self.spec_inner().spec_tag_type()),
    {
        self.0.to_string()
    }

    /// Reads a tag from its text form.
    pub fn parse(text: String) -> (r: TagString)
        ensures
            r.spec_inner().spec_name() == parsed_name(text@),
            r.spec_inner().spec_tag_type() == parsed_type(text@),
    {
        TagString(TagRef::from_str(text).unwrap())
    }
}

impl From<TagRef> for TagString {
    fn from(value: TagRef) -> (r: TagString) {
        TagString(value)
    }
}

impl vstd::std_specs::convert::FromSpecImpl<TagRef> for TagString {
    open spec fn obeys_from_spec() -> bool {
        true
    }

    open spec fn from_spec(v: TagRef) -> TagString {
        TagString(v)
    }
}

} // verus!
