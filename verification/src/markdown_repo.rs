//! Rules of the Markdown knowledge repository: entry ids derived from
//! titles, the id check that keeps entries inside the root directory, and
//! the matching used by its search. Ids are read as Unix relative paths.
use crate::knowledge::{KnowledgeEntryId, KnowledgeRepositoryError};
use crate::text::{
    chars_of, contains_chars, contains_seq, find_from, matches_at, occurs_at, owned, push_char, push_str,
    skip_newlines_from, starts_with_seq, string_from_chars, string_from_range, trim_start_from, trim_start_newlines,
    trim_start_ws,
};
use vstd::prelude::*;

verus! {

/// Errors of the Markdown filesystem repository.
#[derive(Debug, Clone, PartialEq, Eq)]
pub enum MarkdownRepoError {
    Io(String),
    FrontmatterParse { path: String, reason: String },
    EntryExists(String),
    InvalidId(String),
}

impl MarkdownRepoError {
    /// The repository error this error is reported as.
    pub fn into_repository_error(self) -> (r: KnowledgeRepositoryError)
        ensures
            match self {
                MarkdownRepoError::Io(m) => r == KnowledgeRepositoryError::Io(m),
                MarkdownRepoError::FrontmatterParse { path, reason } => r
                    == KnowledgeRepositoryError::FrontmatterParse { path, reason },
                MarkdownRepoError::EntryExists(m) => r == KnowledgeRepositoryError::EntryExists(m),
                MarkdownRepoError::InvalidId(m) => r == KnowledgeRepositoryError::InvalidId(m),
            },
    {
        match self {
            MarkdownRepoError::Io(m) => KnowledgeRepositoryError::Io(m),
            MarkdownRepoError::FrontmatterParse { path, reason } => {
                KnowledgeRepositoryError::FrontmatterParse { path, reason }
            },
            MarkdownRepoError::EntryExists(m) => KnowledgeRepositoryError::EntryExists(m),
            MarkdownRepoError::InvalidId(m) => KnowledgeRepositoryError::InvalidId(m),
        }
    }
}

/// A filesystem path, as `std::path::PathBuf` holds it.
#[verifier::external_type_specification]
#[verifier::external_body]
pub struct ExPathBuf(std::path::PathBuf);

/// Filesystem-backed knowledge repository rooted at a directory; entries
/// are `{root_dir}/{id}.md` files with YAML frontmatter.
#[derive(Debug)]
pub struct MarkdownKnowledgeRepository {
    root_dir: std::path::PathBuf,
}

impl MarkdownKnowledgeRepository {
    /// A repository rooted at `root_dir`.
    pub fn new(root_dir: std::path::PathBuf) -> (r: Self)
        ensures
            r.root_dir_spec() == root_dir,
    {
        MarkdownKnowledgeRepository { root_dir }
    }

    /// The root directory.
    pub closed spec fn root_dir_spec(&self) -> std::path::PathBuf {
        self.root_dir
    }

    /// The root directory.
    pub fn root_dir(&self) -> (r: &std::path::PathBuf)
        ensures
            *r == self.root_dir_spec(),
    {
        &self.root_dir
    }
}

/// Whether a path is absolute: it starts at the root.
pub open spec fn is_absolute_path(s: Seq<char>) -> bool {
    s.len() > 0 && s[0] == '/'
}

/// Whether a path has a `..` component.
pub open spec fn has_parent_component(s: Seq<char>) -> bool {
    exists|i: int|
        0 <= i && i + 2 <= s.len() && (i == 0 || s[i - 1] == '/') && #[trigger] s[i] == '.' && s[i + 1]
            == '.' && (i + 2 == s.len() || s[i + 2] == '/')
}

/// The error for an id that is not relative.
pub open spec fn not_relative_message(id: Seq<char>) -> Seq<char> {
    "id must be relative: "@ + id
}

/// The error for an id with a `..` component.
pub open spec fn parent_component_message(id: Seq<char>) -> Seq<char> {
    "id must not contain '..': "@ + id
}

impl MarkdownKnowledgeRepository {
    /// Checks that an entry id stays inside the repository: it must be a
    /// relative path without `..` components.
    pub fn validate_id(id: &KnowledgeEntryId) -> (r: Result<(), MarkdownRepoError>)
        ensures
            is_absolute_path(id@) ==> (r matches Err(MarkdownRepoError::InvalidId(m)) && m@
                == not_relative_message(id@)),
            !is_absolute_path(id@) && has_parent_component(id@) ==> (r matches Err(
                MarkdownRepoError::InvalidId(m),
            ) && m@ == parent_component_message(id@)),
            !is_absolute_path(id@) && !has_parent_component(id@) ==> r is Ok,
    {
        let cs = chars_of(id.as_str());
        if cs.len() > 0 && cs[0] == '/' {
            let mut m = owned("id must be relative: ");
            push_str(&mut m, id.as_str());
            return Err(MarkdownRepoError::InvalidId(m));
        }
        let n = cs.len();
        let mut i: usize = 0;
        while n >= 2 && i <= n - 2
            invariant
                cs@ == id@,
                n == cs@.len(),
                !is_absolute_path(id@),
                forall|j: int|
                    0 <= j < i && j + 2 <= n ==> !((j == 0 || cs@[j - 1] == '/') && #[trigger] cs@[j] == '.'
                        && cs@[j + 1] == '.' && (j + 2 == n || cs@[j + 2] == '/')),
            decreases n - i,
        {
            if (i == 0 || cs[i - 1] == '/') && cs[i] == '.' && cs[i + 1] == '.' && (i + 2 == n || cs[i
                + 2] == '/') {
                let mut m = owned("id must not contain '..': ");
                push_str(&mut m, id.as_str());
                return Err(MarkdownRepoError::InvalidId(m));
            }
            i = i + 1;
        }
        Ok(())
    }
}

/// `s` mapped to lower case as `str::to_lowercase` does (Unicode).
pub uninterp spec fn unicode_lowercase(s: Seq<char>) -> Seq<char>;

/// Whether `c` is alphabetic or numeric, as `char::is_alphanumeric` says.
pub uninterp spec fn unicode_alphanumeric(c: char) -> bool;

/// `str::to_lowercase`: the Unicode lower case of `s`. The mapping is left
/// to the name.
#[verifier::external_body]
pub(crate) fn to_lowercase(s: &str) -> (r: String)
    ensures
        r@ == unicode_lowercase(s@),
{
    s.to_lowercase()
}

/// `char::is_alphanumeric`: whether `c` is alphabetic or numeric in
/// Unicode. The set is left to the name.
#[verifier::external_body]
fn is_alphanumeric(c: char) -> (r: bool)
    ensures
        r == unicode_alphanumeric(c),
{
    c.is_alphanumeric()
}

/// A character kept in a slug; others become `-`.
pub open spec fn slug_char(c: char) -> char {
    if unicode_alphanumeric(c) || c == '-' || c == '_' {
        c
    } else {
        '-'
    }
}

/// `s` with every run of `-` shortened to one.
pub open spec fn collapse_dashes(s: Seq<char>) -> Seq<char>
    decreases s.len(),
{
    if s.len() == 0 {
        s
    } else if s.last() == '-' && s.len() >= 2 && s[s.len() - 2] == '-' {
        collapse_dashes(s.drop_last())
    } else {
        collapse_dashes(s.drop_last()).push(s.last())
    }
}

/// `s` without leading `-`.
pub open spec fn trim_start_dashes(s: Seq<char>) -> Seq<char>
    decreases s.len(),
{
    if s.len() > 0 && s[0] == '-' {
        trim_start_dashes(s.drop_first())
    } else {
        s
    }
}

/// `s` without trailing `-`.
pub open spec fn trim_end_dashes(s: Seq<char>) -> Seq<char>
    decreases s.len(),
{
    if s.len() > 0 && s.last() == '-' {
        trim_end_dashes(s.drop_last())
    } else {
        s
    }
}

/// The slug of a title: lower-cased, characters other than letters,
/// digits, `-` and `_` replaced by `-`, runs of `-` collapsed, `-` trimmed
/// from both ends, and `untitled` when nothing is left.
pub open spec fn slug_of(title: Seq<char>) -> Seq<char> {
    let mapped = unicode_lowercase(title).map_values(|c: char| slug_char(c));
    let trimmed = trim_start_dashes(trim_end_dashes(collapse_dashes(mapped)));
    if trimmed.len() == 0 {
        "untitled"@
    } else {
        trimmed
    }
}

proof fn lemma_collapse_ends(s: Seq<char>)
    ensures
        s.len() > 0 ==> collapse_dashes(s).len() > 0 && collapse_dashes(s).last() == s.last(),
    decreases s.len(),
{
    if s.len() > 0 {
        lemma_collapse_ends(s.drop_last());
    }
}

/// Whether `s` has no two `-` in a row.
pub open spec fn no_double_dash(s: Seq<char>) -> bool {
    forall|i: int| 1 <= i < s.len() ==> !(#[trigger] s[i] == '-' && s[i - 1] == '-')
}

proof fn lemma_collapse_no_double(s: Seq<char>)
    ensures
        no_double_dash(collapse_dashes(s)),
    decreases s.len(),
{
    if s.len() > 0 {
        lemma_collapse_no_double(s.drop_last());
        lemma_collapse_ends(s.drop_last());
        let c = collapse_dashes(s.drop_last());
        if !(s.last() == '-' && s.len() >= 2 && s[s.len() - 2] == '-') {
            let r = c.push(s.last());
            assert forall|i: int| 1 <= i < r.len() implies !(#[trigger] r[i] == '-' && r[i - 1] == '-') by {
                if i < r.len() - 1 {
                    assert(r[i] == c[i] && r[i - 1] == c[i - 1]);
                } else if s.len() >= 2 {
                    assert(r[i - 1] == c.last());
                    assert(c.last() == s.drop_last().last());
                }
            }
        }
    }
}

proof fn lemma_trim_end_dashes(s: Seq<char>) -> (k: int)
    ensures
        0 <= k <= s.len(),
        trim_end_dashes(s) == s.take(k),
        k > 0 ==> s[k - 1] != '-',
    decreases s.len(),
{
    if s.len() > 0 && s.last() == '-' {
        let k = lemma_trim_end_dashes(s.drop_last());
        assert(s.drop_last().take(k) == s.take(k));
        k
    } else {
        assert(s.take(s.len() as int) == s);
        s.len() as int
    }
}

proof fn lemma_trim_start_dashes(s: Seq<char>) -> (k: int)
    ensures
        0 <= k <= s.len(),
        trim_start_dashes(s) == s.skip(k),
        k < s.len() ==> s[k] != '-',
    decreases s.len(),
{
    if s.len() > 0 && s[0] == '-' {
        let k = lemma_trim_start_dashes(s.drop_first());
        assert(s.drop_first().skip(k) == s.skip(k + 1));
        k + 1
    } else {
        assert(s.skip(0) == s);
        0
    }
}

/// Every slug is non-empty, neither starts nor ends with `-`, and never
/// has two `-` in a row.
pub proof fn law_slug_shape(title: Seq<char>)
    ensures
        slug_of(title).len() > 0,
        slug_of(title)[0] != '-',
        slug_of(title).last() != '-',
        no_double_dash(slug_of(title)),
{
    let mapped = unicode_lowercase(title).map_values(|c: char| slug_char(c));
    let collapsed = collapse_dashes(mapped);
    lemma_collapse_no_double(mapped);
    let ke = lemma_trim_end_dashes(collapsed);
    let ended = collapsed.take(ke);
    let ks = lemma_trim_start_dashes(ended);
    let trimmed = ended.skip(ks);
    assert forall|i: int| 1 <= i < trimmed.len() implies !(#[trigger] trimmed[i] == '-' && trimmed[i - 1]
        == '-') by {
        assert(trimmed[i] == collapsed[i + ks] && trimmed[i - 1] == collapsed[i + ks - 1]);
    }
    if trimmed.len() == 0 {
        reveal_strlit("untitled");
        assert("untitled"@ =~= seq!['u', 'n', 't', 'i', 't', 'l', 'e', 'd']);
    } else {
        assert(trimmed.last() == ended[ke - 1]);
    }
}

impl MarkdownKnowledgeRepository {
    /// Derives an entry id from a title.
    pub fn slugify(title: &str) -> (r: String)
        ensures
            r@ == slug_of(title@),
    {
        let lower = to_lowercase(title);
        let cs = chars_of(lower.as_str());
        let ghost mapped = unicode_lowercase(title@).map_values(|c: char| slug_char(c));
        let mut collapsed: Vec<char> = Vec::new();
        let mut prev_dash = false;
        let mut i: usize = 0;
        while i < cs.len()
            invariant
                cs@ == unicode_lowercase(title@),
                mapped == cs@.map_values(|c: char| slug_char(c)),
                i <= cs@.len(),
                collapsed@ == collapse_dashes(mapped.take(i as int)),
                prev_dash == (i > 0 && mapped[i - 1] == '-'),
            decreases cs@.len() - i,
        {
            let c = cs[i];
            let m = if is_alphanumeric(c) || c == '-' || c == '_' {
                c
            } else {
                '-'
            };
            proof {
                assert(m == mapped[i as int]);
                assert(mapped.take(i + 1).drop_last() == mapped.take(i as int));
                assert(mapped.take(i + 1).last() == m);
                if i > 0 {
                    assert(mapped.take(i + 1)[i - 1] == mapped[i - 1]);
                }
            }
            if m == '-' {
                if !prev_dash {
                    collapsed.push(m);
                }
                prev_dash = true;
            } else {
                collapsed.push(m);
                prev_dash = false;
            }
            i = i + 1;
        }
        proof {
            assert(mapped.take(cs@.len() as int) == mapped);
        }
        let mut end: usize = collapsed.len();
        proof {
            assert(collapsed@.take(end as int) == collapsed@);
        }
        while end > 0 && collapsed[end - 1] == '-'
            invariant
                end <= collapsed@.len(),
                trim_end_dashes(collapsed@) == trim_end_dashes(collapsed@.take(end as int)),
            decreases end,
        {
            proof {
                assert(collapsed@.take(end as int).drop_last() == collapsed@.take(end - 1));
            }
            end = end - 1;
        }
        let mut start: usize = 0;
        let ghost te = collapsed@.take(end as int);
        proof {
            assert(te.skip(0) == te);
        }
        while start < end && collapsed[start] == '-'
            invariant
                start <= end,
                end <= collapsed@.len(),
                te == collapsed@.take(end as int),
                trim_start_dashes(te) == trim_start_dashes(te.skip(start as int)),
            decreases end - start,
        {
            proof {
                assert(te.skip(start as int).drop_first() == te.skip(start + 1));
            }
            start = start + 1;
        }
        if start == end {
            let r = owned("untitled");
            proof {
                assert(te.skip(start as int).len() == 0);
            }
            return r;
        }
        let r = string_from_chars(&collapsed.as_slice()[start..end]);
        proof {
            assert(collapsed@.subrange(start as int, end as int) == te.skip(start as int));
        }
        r
    }
}

/// Whether `needle` occurs in `title` or `body`, letter case ignored.
pub open spec fn text_matches_spec(needle: Seq<char>, title: Seq<char>, body: Seq<char>) -> bool {
    contains_seq(unicode_lowercase(title), unicode_lowercase(needle)) || contains_seq(
        unicode_lowercase(body),
        unicode_lowercase(needle),
    )
}

impl MarkdownKnowledgeRepository {
    /// Case-insensitive substring match in a title or body.
    pub fn text_matches(text: &str, title: &str, body: &str) -> (r: bool)
        ensures
            r == text_matches_spec(text@, title@, body@),
    {
        let needle_s = to_lowercase(text);
        let title_s = to_lowercase(title);
        let body_s = to_lowercase(body);
        let needle = chars_of(needle_s.as_str());
        let t = chars_of(title_s.as_str());
        let b = chars_of(body_s.as_str());
        contains_chars(t.as_slice(), needle.as_slice()) || contains_chars(b.as_slice(), needle.as_slice())
    }
}

/// Whether a tag is among `tags`.
pub open spec fn has_tag(tags: Seq<String>, tag: Seq<char>) -> bool {
    exists|j: int| 0 <= j < tags.len() && (#[trigger] tags[j])@ == tag
}

/// Whether every required tag is among the entry's tags.
pub open spec fn tags_match_spec(required: Seq<String>, entry_tags: Seq<String>) -> bool {
    forall|i: int| 0 <= i < required.len() ==> has_tag(entry_tags, (#[trigger] required[i])@)
}

impl MarkdownKnowledgeRepository {
    /// Whether every required tag is among the entry's tags.
    pub fn tags_match(required: &[String], entry_tags: &[String]) -> (r: bool)
        ensures
            r == tags_match_spec(required@, entry_tags@),
    {
        let mut i: usize = 0;
        while i < required.len()
            invariant
                i <= required@.len(),
                forall|k: int| 0 <= k < i ==> has_tag(entry_tags@, (#[trigger] required@[k])@),
            decreases required@.len() - i,
        {
            let mut found = false;
            let mut j: usize = 0;
            while j < entry_tags.len()
                invariant
                    i < required@.len(),
                    j <= entry_tags@.len(),
                    !found ==> forall|k: int| 0 <= k < j ==> (#[trigger] entry_tags@[k])@ != required@[i as int]@,
                    found ==> exists|k: int| 0 <= k < entry_tags@.len() && (#[trigger] entry_tags@[k])@ == required@[i as int]@,
                decreases entry_tags@.len() - j,
            {
                if entry_tags[j] == required[i] {
                    found = true;
                }
                j = j + 1;
            }
            if !found {
                proof {
                    assert(!has_tag(entry_tags@, required@[i as int]@));
                    assert(!tags_match_spec(required@, entry_tags@));
                }
                return false;
            }
            i = i + 1;
        }
        true
    }
}


/// The opening and closing mark of YAML frontmatter.
pub open spec fn frontmatter_delimiter() -> Seq<char> {
    seq!['-', '-', '-']
}

/// The closing mark of YAML frontmatter, at the start of a line.
pub open spec fn frontmatter_closing() -> Seq<char> {
    seq!['\n', '-', '-', '-']
}

/// The reason given for an entry that does not open with frontmatter.
pub open spec fn no_opening_reason() -> Seq<char> {
    "file does not start with YAML frontmatter delimiter '---'"@
}

/// The reason given for frontmatter that is never closed.
pub open spec fn no_closing_reason() -> Seq<char> {
    "missing closing '---' delimiter for YAML frontmatter"@
}

/// Whether `e` is the frontmatter error for `path` with `reason`.
pub open spec fn is_frontmatter_error(e: MarkdownRepoError, path: Seq<char>, reason: Seq<char>) -> bool {
    e matches MarkdownRepoError::FrontmatterParse { path: p, reason: m } && p@ == path && m@ == reason
}

proof fn lemma_occurs_shift(s: Seq<char>, p: Seq<char>, k: int, i: int)
    requires
        0 <= k <= s.len(),
        0 <= i,
    ensures
        occurs_at(s, p, i + k) == occurs_at(s.skip(k), p, i),
{
    if i + p.len() <= s.skip(k).len() {
        assert(s.subrange(i + k, i + k + p.len()) == s.skip(k).subrange(i, i + p.len()));
    }
}

impl MarkdownKnowledgeRepository {
    /// Splits an entry file into its YAML frontmatter and its body: after
    /// leading whitespace the file must open with `---`, the frontmatter
    /// runs to the first line that starts with `---`, and the body follows
    /// that line's mark without leading newlines.
    pub fn split_frontmatter(content: &str, path_display: &str) -> (r: Result<(String, String), MarkdownRepoError>)
        ensures
            ({
                let stripped = trim_start_ws(content@);
                let after = stripped.skip(3);
                if !starts_with_seq(stripped, frontmatter_delimiter()) {
                    r matches Err(e) && is_frontmatter_error(e, path_display@, no_opening_reason())
                } else if !contains_seq(after, frontmatter_closing()) {
                    r matches Err(e) && is_frontmatter_error(e, path_display@, no_closing_reason())
                } else {
                    r matches Ok((yaml, body)) && exists|c: int|
                        occurs_at(after, frontmatter_closing(), c) && (forall|j: int|
                            0 <= j < c ==> !occurs_at(after, frontmatter_closing(), j)) && yaml@ == after.take(c)
                            && body@ == trim_start_newlines(after.skip(c + 4))
                }
            }),
    {
        let cs = chars_of(content);
        let n: usize = cs.len();
        let start = trim_start_from(cs.as_slice(), 0);
        let opening = chars_of("---");
        let closing = chars_of("\n---");
        proof {
            reveal_strlit("---");
            reveal_strlit("\n---");
            assert(opening@ =~= frontmatter_delimiter());
            assert(closing@ =~= frontmatter_closing());
            assert(cs@.skip(0) == cs@);
        }
        let ghost stripped = cs@.skip(start as int);
        let opens = matches_at(cs.as_slice(), opening.as_slice(), start);
        proof {
            lemma_occurs_shift(cs@, frontmatter_delimiter(), start as int, 0);
            assert(occurs_at(stripped, frontmatter_delimiter(), 0) == starts_with_seq(stripped, frontmatter_delimiter()));
        }
        if !opens {
            let reason = owned("file does not start with YAML frontmatter delimiter '---'");
            return Err(MarkdownRepoError::FrontmatterParse { path: owned(path_display), reason });
        }
        assert(start + 3 <= cs@.len());
        let body_from = start + 3;
        let ghost after = stripped.skip(3);
        proof {
            assert(after == cs@.skip(body_from as int));
        }
        match find_from(cs.as_slice(), closing.as_slice(), body_from) {
            None => {
                proof {
                    assert forall|i: int| !occurs_at(after, frontmatter_closing(), i) by {
                        if i >= 0 {
                            lemma_occurs_shift(cs@, frontmatter_closing(), body_from as int, i);
                        }
                    }
                }
                Err(
                    MarkdownRepoError::FrontmatterParse {
                        path: owned(path_display),
                        reason: owned("missing closing '---' delimiter for YAML frontmatter"),
                    },
                )
            },
            Some(at) => {
                assert(at + 4 <= cs@.len());
                let yaml = string_from_range(cs.as_slice(), body_from, at);
                let rest = skip_newlines_from(cs.as_slice(), at + 4);
                let body = string_from_range(cs.as_slice(), rest, cs.len());
                proof {
                    let c = at - body_from;
                    lemma_occurs_shift(cs@, frontmatter_closing(), body_from as int, c);
                    assert forall|j: int| 0 <= j < c implies !occurs_at(after, frontmatter_closing(), j) by {
                        lemma_occurs_shift(cs@, frontmatter_closing(), body_from as int, j);
                    }
                    assert(yaml@ == after.take(c));
                    assert(after.skip(c + 4) == cs@.skip(at + 4));
                    assert(cs@.subrange(rest as int, cs@.len() as int) == cs@.skip(rest as int));
                }
                Ok((yaml, body))
            },
        }
    }
}
} // verus!
