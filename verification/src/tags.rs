//! The tags file: the lines of three sections, as text that was already read.
use vstd::prelude::*;
use vstd::string::StrSliceExecFns;
use vstd::string::StringExecFns;

verus! {

/// The values recovered from the tags file.
#[derive(Debug, Clone, PartialEq, Eq)]
pub struct TagStore {
    pub general: Vec<String>,
    pub pools: Vec<String>,
    pub single_posts: Vec<String>,
}

/// What the contracts say of a [`TagStore`].
pub struct TagStoreView {
    pub general: Seq<Seq<char>>,
    pub pools: Seq<Seq<char>>,
    pub single_posts: Seq<Seq<char>>,
}

/// The text of each line.
pub open spec fn line_texts(lines: Seq<String>) -> Seq<Seq<char>> {
    Seq::new(lines.len(), |i: int| lines[i]@)
}

impl View for TagStore {
    type V = TagStoreView;

    open spec fn view(&self) -> TagStoreView {
        TagStoreView {
            general: line_texts(self.general@),
            pools: line_texts(self.pools@),
            single_posts: line_texts(self.single_posts@),
        }
    }
}

/// One of the three sections of the tags file.
#[derive(Debug, Clone, Copy, PartialEq, Eq, Structural)]
pub enum Section {
    General,
    Pools,
    SinglePosts,
}

/// Why the lines of a tags file were refused.
#[derive(Debug, Clone, Copy, PartialEq, Eq, Structural)]
pub enum TagError {
    /// The line at this place, counted from zero, starts like the header of
    /// a section and names none.
    UnknownSection(usize),
}

/// The characters that count as white space at the ends of a line.
pub open spec fn is_white_space(c: char) -> bool {
    let n = c as u32;
    ||| 0x09 <= n <= 0x0d
    ||| n == 0x20
    ||| n == 0x85
    ||| n == 0xa0
    ||| n == 0x1680
    ||| 0x2000 <= n <= 0x200a
    ||| n == 0x2028
    ||| n == 0x2029
    ||| n == 0x202f
    ||| n == 0x205f
    ||| n == 0x3000
}

/// Number of white space characters that a text starts with.
pub open spec fn leading_space(s: Seq<char>) -> nat
    decreases s.len(),
{
    if s.len() > 0 && is_white_space(s[0]) {
        1 + leading_space(s.drop_first())
    } else {
        0
    }
}

/// Number of white space characters that a text ends with.
pub open spec fn trailing_space(s: Seq<char>) -> nat
    decreases s.len(),
{
    if s.len() > 0 && is_white_space(s.last()) {
        1 + trailing_space(s.drop_last())
    } else {
        0
    }
}

/// A text without the white space at its two ends.
pub open spec fn trimmed(s: Seq<char>) -> Seq<char> {
    let from = leading_space(s);
    if from == s.len() {
        Seq::empty()
    } else {
        s.subrange(from as int, s.len() - trailing_space(s))
    }
}

/// What a line of the tags file is.
pub enum LineKind {
    /// A comment or a blank line.
    Skipped,
    /// The header of a section.
    Header(Section),
    /// A line that starts like a header and names no section.
    Unknown,
    /// An entry of the section that the line stands in.
    Entry(Seq<char>),
}

/// Sorts a line: a line that starts with `#` is a comment, a line that
/// starts with `[` must be one of the three headers, and any other line is
/// an entry, taken without the white space at its ends. A line that holds
/// nothing but white space is blank and is passed over like an empty one.
pub open spec fn line_kind(line: Seq<char>) -> LineKind {
    if line.len() == 0 || line[0] == '#' {
        LineKind::Skipped
    } else if line[0] == '[' {
        if line == "[general]"@ {
            LineKind::Header(Section::General)
        } else if line == "[pools]"@ {
            LineKind::Header(Section::Pools)
        } else if line == "[single-post]"@ {
            LineKind::Header(Section::SinglePosts)
        } else {
            LineKind::Unknown
        }
    } else if trimmed(line).len() == 0 {
        LineKind::Skipped
    } else {
        LineKind::Entry(trimmed(line))
    }
}

/// The section that the line at place `n` stands in: that of the last header
/// before it, and the general one before the first header.
pub open spec fn section_at(lines: Seq<Seq<char>>, n: nat) -> Section
    decreases n,
{
    if n == 0 {
        Section::General
    } else {
        match line_kind(lines[n - 1]) {
            LineKind::Header(section) => section,
            _ => section_at(lines, (n - 1) as nat),
        }
    }
}

/// The entries of one section among the first `n` lines, in their order.
pub open spec fn entries(lines: Seq<Seq<char>>, section: Section, n: nat) -> Seq<Seq<char>>
    decreases n,
{
    if n == 0 {
        Seq::empty()
    } else {
        let before = entries(lines, section, (n - 1) as nat);
        match line_kind(lines[n - 1]) {
            LineKind::Entry(text) if section_at(lines, (n - 1) as nat) == section => before.push(
                text,
            ),
            _ => before,
        }
    }
}

/// `true` if none of the first `n` lines is a header of an unknown section.
pub open spec fn headers_known(lines: Seq<Seq<char>>, n: nat) -> bool {
    forall|i: int| 0 <= i < n ==> !(#[trigger] line_kind(lines[i]) is Unknown)
}

/// What the lines of a tags file hold.
pub open spec fn parsed(lines: Seq<Seq<char>>) -> TagStoreView {
    TagStoreView {
        general: entries(lines, Section::General, lines.len()),
        pools: entries(lines, Section::Pools, lines.len()),
        single_posts: entries(lines, Section::SinglePosts, lines.len()),
    }
}

fn is_space(c: char) -> (b: bool)
    ensures
        b == is_white_space(c),
{
    let n = c as u32;
    (0x09 <= n && n <= 0x0d) || n == 0x20 || n == 0x85 || n == 0xa0 || n == 0x1680 || (0x2000 <= n
        && n <= 0x200a) || n == 0x2028 || n == 0x2029 || n == 0x202f || n == 0x205f || n == 0x3000
}

proof fn lemma_leading_space(s: Seq<char>, k: nat)
    requires
        k <= s.len(),
        forall|i: int| 0 <= i < k ==> is_white_space(s[i]),
        k == s.len() || !is_white_space(s[k as int]),
    ensures
        leading_space(s) == k,
    decreases k,
{
    if k > 0 {
        let rest = s.drop_first();
        assert forall|i: int| 0 <= i < k - 1 implies is_white_space(rest[i]) by {
            assert(rest[i] == s[i + 1]);
        }
        if k < s.len() {
            assert(rest[k - 1] == s[k as int]);
        }
        lemma_leading_space(rest, (k - 1) as nat);
    }
}

proof fn lemma_trailing_space(s: Seq<char>, k: nat)
    requires
        k <= s.len(),
        forall|i: int| s.len() - k <= i < s.len() ==> is_white_space(s[i]),
        k == s.len() || !is_white_space(s[s.len() - k - 1]),
    ensures
        trailing_space(s) == k,
    decreases k,
{
    if k > 0 {
        let rest = s.drop_last();
        assert forall|i: int| rest.len() - (k - 1) <= i < rest.len() implies is_white_space(
            rest[i],
        ) by {
            assert(rest[i] == s[i]);
        }
        if k < s.len() {
            assert(rest[rest.len() - (k - 1) - 1] == s[s.len() - k - 1]);
        }
        lemma_trailing_space(rest, (k - 1) as nat);
    }
}

/// Copies a line without the white space at its two ends.
pub fn trim(line: &str) -> (r: String)
    ensures
        r@ == trimmed(line@),
{
    let n = line.unicode_len();
    let mut from: usize = 0;
    while from < n && is_space(line.get_char(from))
        invariant
            from <= n,
            n == line@.len(),
            forall|i: int| 0 <= i < from ==> is_white_space(line@[i]),
        decreases n - from,
    {
        from = from + 1;
    }
    proof {
        lemma_leading_space(line@, from as nat);
    }
    if from == n {
        return String::new();
    }
    let mut to: usize = n;
    while to > from && is_space(line.get_char(to - 1))
        invariant
            from < to <= n,
            n == line@.len(),
            !is_white_space(line@[from as int]),
            forall|i: int| to <= i < n ==> is_white_space(line@[i]),
        decreases to,
    {
        to = to - 1;
    }
    proof {
        lemma_trailing_space(line@, (n - to) as nat);
    }
    String::from_str(line.substring_char(from, to))
}

fn same_text(a: &str, b: &str) -> (same: bool)
    ensures
        same == (a@ == b@),
{
    let x = String::from_str(a);
    let y = String::from_str(b);
    x == y
}

/// A line of the tags file, sorted.
#[derive(Debug, Clone, PartialEq, Eq)]
pub enum Line {
    Skipped,
    Header(Section),
    Unknown,
    Entry(String),
}

impl View for Line {
    type V = LineKind;

    open spec fn view(&self) -> LineKind {
        match *self {
            Line::Skipped => LineKind::Skipped,
            Line::Header(section) => LineKind::Header(section),
            Line::Unknown => LineKind::Unknown,
            Line::Entry(text) => LineKind::Entry(text@),
        }
    }
}

/// Sorts one line of the tags file.
pub fn classify(line: &str) -> (kind: Line)
    ensures
        kind@ == line_kind(line@),
{
    if line.unicode_len() == 0 {
        return Line::Skipped;
    }
    let first = line.get_char(0);
    if first == '#' {
        Line::Skipped
    } else if first == '[' {
        if same_text(line, "[general]") {
            Line::Header(Section::General)
        } else if same_text(line, "[pools]") {
            Line::Header(Section::Pools)
        } else if same_text(line, "[single-post]") {
            Line::Header(Section::SinglePosts)
        } else {
            Line::Unknown
        }
    } else {
        let text = trim(line);
        if text.as_str().unicode_len() == 0 {
            Line::Skipped
        } else {
            Line::Entry(text)
        }
    }
}

/// Reads the lines of a tags file. The lines are refused if one of them
/// starts like a header and names no section; the error names the first.
pub fn parse_tags(lines: &Vec<String>) -> (r: Result<TagStore, TagError>)
    ensures
        match r {
            Ok(store) => {
                &&& headers_known(line_texts(lines@), lines@.len())
                &&& store@ == parsed(line_texts(lines@))
            },
            Err(TagError::UnknownSection(i)) => {
                &&& i < lines@.len()
                &&& headers_known(line_texts(lines@), i as nat)
                &&& line_kind(lines@[i as int]@) is Unknown
            },
        },
{
    let ghost texts = line_texts(lines@);
    let mut stor = TagStore::new();
    let mut last = Section::General;
    let mut i: usize = 0;
    assert(stor@.general =~= Seq::empty());
    assert(stor@.pools =~= Seq::empty());
    assert(stor@.single_posts =~= Seq::empty());
    while i < lines.len()
        invariant
            i <= lines@.len(),
            texts == line_texts(lines@),
            headers_known(texts, i as nat),
            last == section_at(texts, i as nat),
            stor@.general == entries(texts, Section::General, i as nat),
            stor@.pools == entries(texts, Section::Pools, i as nat),
            stor@.single_posts == entries(texts, Section::SinglePosts, i as nat),
        decreases lines@.len() - i,
    {
        assert(texts[i as int] == lines@[i as int]@);
        match classify(lines[i].as_str()) {
            Line::Skipped => {},
            Line::Header(section) => {
                last = section;
            },
            Line::Unknown => {
                return Err(TagError::UnknownSection(i));
            },
            Line::Entry(text) => {
                let ghost before = stor@;
                match last {
                    Section::General => {
                        stor.general.push(text);
                        assert(stor@.general =~= before.general.push(text@));
                        assert(stor@.pools =~= before.pools);
                        assert(stor@.single_posts =~= before.single_posts);
                    },
                    Section::Pools => {
                        stor.pools.push(text);
                        assert(stor@.pools =~= before.pools.push(text@));
                        assert(stor@.general =~= before.general);
                        assert(stor@.single_posts =~= before.single_posts);
                    },
                    Section::SinglePosts => {
                        stor.single_posts.push(text);
                        assert(stor@.single_posts =~= before.single_posts.push(text@));
                        assert(stor@.general =~= before.general);
                        assert(stor@.pools =~= before.pools);
                    },
                }
            },
        }
        i = i + 1;
    }
    Ok(stor)
}

impl TagStore {
    /// A store without entries.
    pub fn new() -> (s: TagStore)
        ensures
            s@.general.len() == 0,
            s@.pools.len() == 0,
            s@.single_posts.len() == 0,
    {
        TagStore { general: Vec::new(), pools: Vec::new(), single_posts: Vec::new() }
    }

    /// `true` if no section holds an entry.
    pub fn is_empty(&self) -> (b: bool)
        ensures
            b == (self@.general.len() == 0 && self@.pools.len() == 0 && self@.single_posts.len()
                == 0),
    {
        self.general.len() == 0 && self.pools.len() == 0 && self.single_posts.len() == 0
    }
}

} // verus!
