//! Markdown knowledge files as the repository writes and reads them: the
//! frontmatter written for a draft, the file text around its YAML, the
//! entry reference read back from frontmatter, and the search and listing
//! over parsed files.
use crate::clock::now_unix_seconds;
use std::fmt::Write;
use crate::json::{json_field, json_field_of, json_field_str, json_str_field, json_str_items, json_array_strs};
use crate::knowledge::{KnowledgeEntryId, KnowledgeSearchQuery};
use crate::ledger::{copy_strings, has_key, insert_sorted, keys_increasing, lists_matching, select_sorted, views, Keyed};
use crate::markdown_repo::{
    tags_match_spec, text_matches_spec, unicode_lowercase, MarkdownKnowledgeRepository,
};
use crate::repository::{
    first_chars, rank_results, ranked, KnowledgeEntryDraft, KnowledgeEntryRef, KnowledgeSearchResult,
    SearchResultView,
};
use crate::text::{chars_of, contains_chars, contains_seq, owned, push_char, push_str, str_eq, string_from_range};
use vstd::prelude::*;

verus! {

/// The frontmatter of a Markdown knowledge file.
#[derive(Debug, Clone, PartialEq)]
pub struct Frontmatter {
    pub title: String,
    pub summary: String,
    pub category: String,
    pub tags: Vec<String>,
    pub industry: String,
    pub source: String,
    pub author: String,
    pub related: Vec<String>,
    pub applicable_to: Vec<String>,
    pub last_updated: Option<String>,
}

/// The text `chrono` writes with `format` for the UTC instant `secs`
/// seconds after the Unix epoch, when the instant is in its range and the
/// format can be written.
pub uninterp spec fn utc_date(secs: i64, format: Seq<char>) -> Option<Seq<char>>;

/// `DateTime::<Utc>::from_timestamp(secs, 0)` written with `format`; `None`
/// when the instant is out of `chrono`'s range or the format fails.
#[verifier::external_body]
pub(crate) fn utc_date_text(secs: i64, format: &str) -> (r: Option<String>)
    ensures
        utc_date(secs, format@) == match r {
            Some(s) => Some(s@),
            None => None::<Seq<char>>,
        },
{
    let d = chrono::DateTime::<chrono::Utc>::from_timestamp(secs, 0)?;
    let mut s = String::new();
    match write!(s, "{}", d.format(format)) {
        Ok(()) => Some(s),
        Err(_) => None,
    }
}

/// The year, month and day of the date `chrono` reads from `s` with
/// `format`, when it reads one.
pub uninterp spec fn parsed_date(s: Seq<char>, format: Seq<char>) -> Option<(i32, u32, u32)>;

/// `NaiveDate::parse_from_str(s, format)` as its year, month and day. As
/// `chrono` documents, the month is from 1 to 12, the day from 1 to 31,
/// and the year within `NaiveDate`'s range (at most 262143 either way).
#[verifier::external_body]
fn parse_date_parts(s: &str, format: &str) -> (r: Option<(i32, u32, u32)>)
    ensures
        r == parsed_date(s@, format@),
        r matches Some((y, m, d)) ==> -262143 <= y <= 262143 && 1 <= m <= 12 && 1 <= d <= 31,
{
    chrono::NaiveDate::parse_from_str(s, format)
        .ok()
        .map(|d| (chrono::Datelike::year(&d), chrono::Datelike::month(&d), chrono::Datelike::day(&d)))
}

/// The number of days from 1970-01-01 to the proleptic Gregorian date
/// `y`-`m`-`d` (negative before it), counted in 400-year eras from
/// 0000-03-01.
pub open spec fn days_from_civil(y: int, m: int, d: int) -> int {
    let ya = if m <= 2 { y - 1 } else { y };
    let era = ya / 400;
    let yoe = ya % 400;
    let mp = if m > 2 { m - 3 } else { m + 9 };
    let doy = (153 * mp + 2) / 5 + d - 1;
    let doe = yoe * 365 + yoe / 4 - yoe / 100 + doy;
    era * 146097 + doe - 719468
}

/// Unix seconds at UTC midnight starting the date `y`-`m`-`d`.
pub fn midnight_utc_seconds(y: i32, m: u32, d: u32) -> (r: i64)
    requires
        -262143 <= y <= 262143,
        1 <= m <= 12,
        1 <= d <= 31,
    ensures
        r == days_from_civil(y as int, m as int, d as int) * 86400,
{
    let ya: i64 = if m <= 2 {
        y as i64 - 1
    } else {
        y as i64
    };
    let shifted: u64 = (ya + 400_000) as u64;
    let era_s: u64 = shifted / 400;
    let yoe: u64 = shifted % 400;
    let mp: u64 = if m > 2 {
        (m - 3) as u64
    } else {
        (m + 9) as u64
    };
    let doy: u64 = (153 * mp + 2) / 5 + d as u64 - 1;
    let doe: u64 = yoe * 365 + yoe / 4 - yoe / 100 + doy;
    let era: i64 = era_s as i64 - 1000;
    proof {
        vstd::arithmetic::div_mod::lemma_fundamental_div_mod(shifted as int, 400);
        vstd::arithmetic::div_mod::lemma_fundamental_div_mod_converse(
            ya as int,
            400,
            era_s as int - 1000,
            yoe as int,
        );
        assert(doy <= 400);
        assert(doe <= 399 * 365 + 99 + 400) by (nonlinear_arith)
            requires
                yoe < 400,
                doy <= 400,
                doe == yoe * 365 + yoe / 4 - yoe / 100 + doy;
        assert(-1000 <= era <= 2000);
    }
    let days: i64 = era * 146097 + doe as i64 - 719468;
    days * 86400
}

/// The Unix seconds of UTC midnight on the date `chrono` reads from `s`
/// with `format`, when it reads one.
pub open spec fn parsed_midnight(s: Seq<char>, format: Seq<char>) -> Option<int> {
    match parsed_date(s, format) {
        Some((y, m, d)) => Some(days_from_civil(y as int, m as int, d as int) * 86400),
        None => None,
    }
}

/// UTC midnight of the date read from `s` with `format`, in Unix seconds.
fn parse_date_seconds(s: &str, format: &str) -> (r: Option<i64>)
    ensures
        match r {
            Some(t) => parsed_midnight(s@, format@) == Some(t as int),
            None => parsed_midnight(s@, format@) is None,
        },
{
    match parse_date_parts(s, format) {
        Some((y, m, d)) => Some(midnight_utc_seconds(y, m, d)),
        None => None,
    }
}

/// The index of the last `/` of `s` at or after `lb`, or -1 when there
/// is none.
pub open spec fn last_slash(s: Seq<char>, lb: int) -> int
    decreases s.len(),
{
    if s.len() <= lb || s.len() == 0 {
        -1
    } else if s.last() == '/' {
        s.len() - 1
    } else {
        last_slash(s.drop_last(), lb)
    }
}

/// The last `/` at or after `lb` is a `/` of `s` in that range, if any.
pub proof fn lemma_last_slash_range(s: Seq<char>, lb: int)
    requires
        0 <= lb,
    ensures
        last_slash(s, lb) == -1 || (lb <= last_slash(s, lb) < s.len() && s[last_slash(s, lb)] == '/'),
    decreases s.len(),
{
    if s.len() > lb && s.len() > 0 && s.last() != '/' {
        lemma_last_slash_range(s.drop_last(), lb);
    }
}

/// `s` without its trailing empty and `.` components (with the `/` before
/// each), never cut below its first `lb` characters.
pub open spec fn trim_components(s: Seq<char>, lb: int) -> Seq<char>
    decreases s.len(),
{
    if s.len() <= lb || lb < 0 {
        s
    } else {
        let k = last_slash(s, lb);
        let start = if k >= 0 { k + 1 } else { lb };
        let piece = s.subrange(start, s.len() as int);
        if piece.len() == 0 || piece == seq!['.'] {
            proof {
                lemma_last_slash_range(s, lb);
            }
            trim_components(s.take(if k >= 0 { k } else { lb }), lb)
        } else {
            s
        }
    }
}

/// The length of what comes before the components of path `s`: a leading
/// `/`, or a leading `.` component.
pub open spec fn path_lead(s: Seq<char>) -> int {
    if s.len() > 0 && s[0] == '/' {
        1
    } else if s.len() > 0 && s[0] == '.' && (s.len() == 1 || s[1] == '/') {
        1
    } else {
        0
    }
}

/// The parent of the `/`-separated path `s`, as `std::path::Path::parent`
/// gives it on Unix: the path without its last component, trailing `/`
/// and `.` components left out; `None` for the empty path and the root.
pub open spec fn path_parent(s: Seq<char>) -> Option<Seq<char>> {
    let lb = path_lead(s);
    let t = trim_components(s, lb);
    if t.len() > lb {
        let k = last_slash(t, lb);
        Some(trim_components(t.take(if k >= 0 { k } else { lb }), lb))
    } else if lb == 1 && s[0] == '.' {
        Some(Seq::empty())
    } else {
        None
    }
}

/// The index of the last `/` of `cs[lb..end]`.
fn last_slash_index(cs: &Vec<char>, end: usize, lb: usize) -> (r: Option<usize>)
    requires
        lb <= end <= cs@.len(),
    ensures
        match r {
            Some(k) => last_slash(cs@.take(end as int), lb as int) == k,
            None => last_slash(cs@.take(end as int), lb as int) == -1,
        },
{
    let mut j = end;
    while j > lb
        invariant
            lb <= j <= end <= cs@.len(),
            last_slash(cs@.take(end as int), lb as int) == last_slash(cs@.take(j as int), lb as int),
        decreases j,
    {
        assert(cs@.take(j as int).last() == cs@[j - 1]);
        if cs[j - 1] == '/' {
            return Some(j - 1);
        }
        assert(cs@.take(j as int).drop_last() =~= cs@.take(j - 1));
        j = j - 1;
    }
    None
}

/// The end of `trim_components(cs[..end], lb)`.
fn trim_end_index(cs: &Vec<char>, end: usize, lb: usize) -> (r: usize)
    requires
        lb <= end <= cs@.len(),
    ensures
        lb <= r <= end,
        trim_components(cs@.take(end as int), lb as int) == cs@.take(r as int),
{
    let mut e = end;
    loop
        invariant
            lb <= e <= end <= cs@.len(),
            trim_components(cs@.take(end as int), lb as int) == trim_components(cs@.take(e as int), lb as int),
        decreases e,
    {
        if e <= lb {
            return e;
        }
        let k = last_slash_index(cs, e, lb);
        proof {
            lemma_last_slash_range(cs@.take(e as int), lb as int);
        }
        let start = match k {
            Some(k) => k + 1,
            None => lb,
        };
        let ghost t = cs@.take(e as int);
        let ghost piece = t.subrange(start as int, e as int);
        let is_dot = e - start == 1 && cs[start] == '.';
        proof {
            if e - start == 1 {
                assert(piece[0] == cs@[start as int]);
                if cs@[start as int] == '.' {
                    assert(piece =~= seq!['.']);
                }
            }
        }
        if e - start == 0 || is_dot {
            let cut = match k {
                Some(k) => k,
                None => lb,
            };
            assert(t.take(cut as int) =~= cs@.take(cut as int));
            e = cut;
        } else {
            return e;
        }
    }
}

/// The parent of the path `s`, as `std::path::Path::parent` gives it on
/// Unix.
fn path_parent_text(s: &str) -> (r: Option<String>)
    ensures
        path_parent(s@) == match r {
            Some(p) => Some(p@),
            None => None::<Seq<char>>,
        },
{
    let cs = chars_of(s);
    let n = cs.len();
    let lb: usize = if n > 0 && cs[0] == '/' {
        1
    } else if n > 0 && cs[0] == '.' && (n == 1 || cs[1] == '/') {
        1
    } else {
        0
    };
    assert(cs@.take(n as int) =~= cs@);
    let t = trim_end_index(&cs, n, lb);
    if t > lb {
        let k = last_slash_index(&cs, t, lb);
        let cut = match k {
            Some(k) => k,
            None => lb,
        };
        proof {
            lemma_last_slash_range(cs@.take(t as int), lb as int);
        }
        assert(cs@.take(t as int).take(cut as int) =~= cs@.take(cut as int));
        let e = trim_end_index(&cs, cut, lb);
        let p = string_from_range(cs.as_slice(), 0, e);
        assert(cs@.subrange(0, e as int) =~= cs@.take(e as int));
        Some(p)
    } else if lb == 1 && cs[0] == '.' {
        Some(String::new())
    } else {
        None
    }
}

/// The string metadata under `key`, or `default` when there is none.
pub open spec fn metadata_text(metadata: serde_json::Value, key: Seq<char>, default: Seq<char>) -> Seq<char> {
    match json_field_str(metadata, key) {
        Some(s) => s,
        None => default,
    }
}

/// The strings of an optional list, the non-strings left out.
pub open spec fn strings_of(items: Seq<Option<Seq<char>>>) -> Seq<Seq<char>> {
    items.filter(|o: Option<Seq<char>>| o is Some).map_values(|o: Option<Seq<char>>| o.unwrap())
}

/// The strings of the array metadata under `key`; empty when there is no
/// array.
pub open spec fn metadata_strings(metadata: serde_json::Value, key: Seq<char>) -> Seq<Seq<char>> {
    match json_field_of(metadata, key) {
        Some(v) => match json_array_strs(v) {
            Some(items) => strings_of(items),
            None => Seq::empty(),
        },
        None => Seq::empty(),
    }
}

/// The texts of strings.
pub open spec fn texts(v: Seq<String>) -> Seq<Seq<char>> {
    v.map_values(|s: String| s@)
}

/// The category written for an entry: the given one, or else the id's
/// parent directory when that is neither empty nor `.`.
pub open spec fn written_category(id: Seq<char>, category: Seq<char>) -> Seq<char> {
    if category.len() == 0 {
        match path_parent(id) {
            Some(p) => if p.len() > 0 && p != seq!['.'] {
                p
            } else {
                category
            },
            None => category,
        }
    } else {
        category
    }
}

/// Whether `fm` is the frontmatter written for `draft` saved as `id` in
/// `category`.
pub open spec fn is_draft_frontmatter(fm: Frontmatter, id: Seq<char>, draft: KnowledgeEntryDraft, category: Seq<char>) -> bool {
    &&& fm.title@ == draft.title@
    &&& fm.summary@ == metadata_text(draft.metadata, "summary"@, Seq::empty())
    &&& fm.category@ == written_category(id, category)
    &&& fm.tags@ == draft.tags@
    &&& fm.industry@ == metadata_text(draft.metadata, "industry"@, "general"@)
    &&& fm.source@ == match draft.source_uri {
        Some(s) => s@,
        None => Seq::empty(),
    }
    &&& fm.author@ == metadata_text(draft.metadata, "author"@, Seq::empty())
    &&& texts(fm.related@) == metadata_strings(draft.metadata, "related"@)
    &&& texts(fm.applicable_to@) == metadata_strings(draft.metadata, "applicable_to"@)
    &&& match fm.last_updated {
        Some(d) => utc_date(draft.created_at, "%Y-%m-%d"@) == Some(d@),
        None => utc_date(draft.created_at, "%Y-%m-%d"@) is None,
    }
}

/// The string metadata under `key`, or `default`.
fn metadata_value(metadata: &serde_json::Value, key: &str, default: &str) -> (r: String)
    ensures
        r@ == metadata_text(*metadata, key@, default@),
{
    match json_str_field(metadata, key) {
        Some(s) => s,
        None => owned(default),
    }
}

/// The strings of the array metadata under `key`.
fn metadata_list(metadata: &serde_json::Value, key: &str) -> (r: Vec<String>)
    ensures
        texts(r@) == metadata_strings(*metadata, key@),
{
    match json_field(metadata, key) {
        None => {
            let r: Vec<String> = Vec::new();
            assert(texts(r@) =~= Seq::<Seq<char>>::empty());
            r
        },
        Some(v) => match json_str_items(&v) {
            None => {
                let r: Vec<String> = Vec::new();
                assert(texts(r@) =~= Seq::<Seq<char>>::empty());
                r
            },
            Some(items) => {
                let ghost its = items@.map_values(
                    |o: Option<String>|
                        match o {
                            Some(s) => Some(s@),
                            None => None::<Seq<char>>,
                        },
                );
                let mut out: Vec<String> = Vec::new();
                let mut i: usize = 0;
                while i < items.len()
                    invariant
                        i <= items@.len(),
                        its == items@.map_values(
                            |o: Option<String>|
                                match o {
                                    Some(s) => Some(s@),
                                    None => None::<Seq<char>>,
                                },
                        ),
                        texts(out@) == strings_of(its.take(i as int)),
                    decreases items@.len() - i,
                {
                    proof {
                        assert(its.take(i + 1).drop_last() =~= its.take(i as int));
                        assert(its.take(i + 1).last() == its[i as int]);
                        reveal(Seq::filter);
                    }
                    match &items[i] {
                        Some(s) => {
                            let ghost before = texts(out@);
                            out.push(s.clone());
                            proof {
                                assert(texts(out@) =~= before.push(s@));
                            }
                        },
                        None => {},
                    }
                    i = i + 1;
                }
                proof {
                    assert(its.take(its.len() as int) =~= its);
                }
                out
            },
        },
    }
}

/// The frontmatter written for `draft` saved as `id` in `category`: the
/// summary, industry (`general` by default), author, related and
/// applicable-to lists come from the metadata; the category falls back
/// to the id's parent directory; the date is the draft's creation day.
pub fn draft_frontmatter(id: &KnowledgeEntryId, draft: &KnowledgeEntryDraft, category: &str) -> (r: Frontmatter)
    ensures
        is_draft_frontmatter(r, id@, *draft, category@),
{
    let mut cat = owned(category);
    if category.is_empty() {
        match path_parent_text(id.as_str()) {
            Some(parent) => {
                let dot = chars_of(parent.as_str());
                let is_dot = dot.len() == 1 && dot[0] == '.';
                proof {
                    if dot@.len() == 1 && dot@[0] == '.' {
                        assert(dot@ =~= seq!['.']);
                    }
                }
                if dot.len() > 0 && !is_dot {
                    cat = parent;
                }
            },
            None => {},
        }
    }
    proof {
        reveal_strlit("");
    }
    let fm = Frontmatter {
        title: draft.title.clone(),
        summary: metadata_value(&draft.metadata, "summary", ""),
        category: cat,
        tags: copy_strings(&draft.tags),
        industry: metadata_value(&draft.metadata, "industry", "general"),
        source: match &draft.source_uri {
            Some(s) => s.clone(),
            None => String::new(),
        },
        author: metadata_value(&draft.metadata, "author", ""),
        related: metadata_list(&draft.metadata, "related"),
        applicable_to: metadata_list(&draft.metadata, "applicable_to"),
        last_updated: utc_date_text(draft.created_at, "%Y-%m-%d"),
    };
    assert(fm.title@ == draft.title@);
    assert(fm.summary@ == metadata_text(draft.metadata, "summary"@, Seq::empty()));
    assert(fm.category@ == written_category(id@, category@));
    assert(fm.tags@ == draft.tags@);
    assert(fm.industry@ == metadata_text(draft.metadata, "industry"@, "general"@));
    assert(fm.author@ == metadata_text(draft.metadata, "author"@, Seq::empty()));
    assert(texts(fm.related@) == metadata_strings(draft.metadata, "related"@));
    fm
}

/// The YAML written when the frontmatter cannot be serialized.
pub open spec fn fallback_yaml() -> Seq<char> {
    "---\ntitle: unknown\n---\n"@
}

/// `s` without its trailing newlines.
pub open spec fn trim_end_newlines(s: Seq<char>) -> Seq<char>
    decreases s.len(),
{
    if s.len() > 0 && s.last() == '\n' {
        trim_end_newlines(s.drop_last())
    } else {
        s
    }
}

/// The file text of an entry: its YAML between `---` lines, a blank line
/// and the content.
pub open spec fn markdown_file_text(yaml: Seq<char>, content: Seq<char>) -> Seq<char> {
    "---\n"@ + trim_end_newlines(yaml) + "\n---\n\n"@ + content
}

/// The file text for an entry whose frontmatter serialized to `yaml`
/// (`None` when it could not be serialized) and whose body is `content`.
pub fn markdown_document(yaml: Option<&str>, content: &str) -> (r: String)
    ensures
        r@ == markdown_file_text(
            match yaml {
                Some(y) => y@,
                None => fallback_yaml(),
            },
            content@,
        ),
{
    let y: &str = match yaml {
        Some(y) => y,
        None => "---\ntitle: unknown\n---\n",
    };
    let cs = chars_of(y);
    let mut end: usize = cs.len();
    assert(cs@.take(end as int) =~= cs@);
    while end > 0 && cs[end - 1] == '\n'
        invariant
            end <= cs@.len(),
            trim_end_newlines(cs@) == trim_end_newlines(cs@.take(end as int)),
        decreases end,
    {
        proof {
            assert(cs@.take(end as int).drop_last() =~= cs@.take(end - 1));
        }
        end = end - 1;
    }
    proof {
        if end > 0 {
            assert(cs@.take(end as int).last() == cs@[end - 1]);
        }
        assert(cs@.take(cs@.len() as int) =~= cs@);
    }
    let mut s = owned("---\n");
    let body = string_from_range(cs.as_slice(), 0, end);
    push_str(&mut s, body.as_str());
    push_str(&mut s, "\n---\n\n");
    push_str(&mut s, content);
    proof {
        assert(cs@.subrange(0, end as int) =~= cs@.take(end as int));
    }
    s
}

/// The entry reference read from frontmatter: the title, the source when
/// it is not empty, and the creation time from `last_updated`, or `now`
/// when that is missing or not a `%Y-%m-%d` date.
pub open spec fn frontmatter_entry(id: KnowledgeEntryId, fm: Frontmatter, now: i64) -> KnowledgeEntryRef {
    KnowledgeEntryRef {
        id,
        title: fm.title,
        source_uri: if fm.source@.len() == 0 {
            None
        } else {
            Some(fm.source)
        },
        artifact_id: None,
        asset_id: None,
        created_at: match fm.last_updated {
            Some(d) => match parsed_midnight(d@, "%Y-%m-%d"@) {
                Some(t) => t as i64,
                None => now,
            },
            None => now,
        },
    }
}

/// The entry reference read from frontmatter, with `now` as the time when
/// the frontmatter has no date.
pub fn entry_ref_from_frontmatter(id: KnowledgeEntryId, fm: &Frontmatter, now: i64) -> (r: KnowledgeEntryRef)
    ensures
        r == frontmatter_entry(id, *fm, now),
{
    let created_at = match &fm.last_updated {
        Some(d) => match parse_date_seconds(d.as_str(), "%Y-%m-%d") {
            Some(t) => t,
            None => now,
        },
        None => now,
    };
    let source_uri = if fm.source.as_str().is_empty() {
        None
    } else {
        Some(fm.source.clone())
    };
    KnowledgeEntryRef { id, title: fm.title.clone(), source_uri, artifact_id: None, asset_id: None, created_at }
}

/// The entry reference read from frontmatter, the current time standing in
/// for a missing date.
pub fn entry_ref_from_frontmatter_now(id: KnowledgeEntryId, fm: &Frontmatter) -> (r: KnowledgeEntryRef)
    ensures
        exists|now: i64| r == #[trigger] frontmatter_entry(id, *fm, now),
{
    let now = now_unix_seconds();
    entry_ref_from_frontmatter(id, fm, now)
}

/// A parsed Markdown file: its entry id, frontmatter and body.
#[derive(Debug, Clone)]
pub struct MarkdownFile {
    pub id: KnowledgeEntryId,
    pub frontmatter: Frontmatter,
    pub body: String,
}

/// Whether a parsed file matches a search: the query text is empty or
/// occurs in the title or body (letter case ignored), and the file has
/// every tag.
pub open spec fn file_matches(f: MarkdownFile, q: KnowledgeSearchQuery) -> bool {
    (q.text@.len() == 0 || text_matches_spec(q.text@, f.frontmatter.title@, f.body@)) && tags_match_spec(
        q.tags@,
        f.frontmatter.tags@,
    )
}

/// The search result for a matching file: score two for a title match,
/// one for a body match, zero for an empty query; the first 200
/// characters of the body, if any.
pub open spec fn file_result(f: MarkdownFile, q: KnowledgeSearchQuery, now: i64) -> SearchResultView {
    SearchResultView {
        entry: frontmatter_entry(f.id, f.frontmatter, now),
        score: if q.text@.len() == 0 {
            0
        } else if contains_seq(unicode_lowercase(f.frontmatter.title@), unicode_lowercase(q.text@)) {
            2
        } else {
            1
        },
        snippet: if f.body@.len() == 0 {
            None
        } else {
            Some(first_chars(f.body@, 200))
        },
        permission_required: false,
        confidentiality: None,
    }
}

/// Whether the files have distinct ids.
pub open spec fn file_ids_distinct(files: Seq<MarkdownFile>) -> bool {
    forall|i: int, j: int| 0 <= i < j < files.len() ==> (#[trigger] files[i]).id@ != (#[trigger] files[j]).id@
}

/// Whether `out` is what a search gives over `files`: the results of the
/// matching files ranked by score then id, at most `q.limit` of them.
pub open spec fn is_markdown_search_outcome(
    files: Seq<MarkdownFile>,
    q: KnowledgeSearchQuery,
    now: i64,
    out: Seq<SearchResultView>,
) -> bool {
    exists|l: Seq<SearchResultView>|
        #[trigger] ranked(l) && (forall|y: SearchResultView|
            l.contains(y) <==> exists|i: int|
                0 <= i < files.len() && file_matches(#[trigger] files[i], q) && y == file_result(files[i], q, now))
            && out == l.take(
            if l.len() <= q.limit {
                l.len() as int
            } else {
                q.limit as int
            },
        )
}

/// Searches parsed files, whose ids are distinct, with `now` standing in
/// for missing dates.
pub fn markdown_search(files: &Vec<MarkdownFile>, query: &KnowledgeSearchQuery, now: i64) -> (r: Vec<KnowledgeSearchResult>)
    requires
        file_ids_distinct(files@),
    ensures
        is_markdown_search_outcome(files@, *query, now, views(r@)),
{
    let ghost q = *query;
    let mut results: Vec<KnowledgeSearchResult> = Vec::new();
    let mut i: usize = 0;
    while i < files.len()
        invariant
            i <= files@.len(),
            q == *query,
            file_ids_distinct(files@),
            forall|m: int| 0 <= m < results@.len() ==> exists|k: int| 0 <= k < i && (#[trigger] results@[m]).entry.id@ == files@[k].id@,
            forall|a: int, b: int|
                0 <= a < b < results@.len() ==> (#[trigger] results@[a]).entry.id@ != (#[trigger] results@[b]).entry.id@,
            forall|y: SearchResultView| #[trigger]
                views(results@).contains(y) <==> exists|k: int|
                    0 <= k < i && file_matches(#[trigger] files@[k], q) && y == file_result(files@[k], q, now),
        decreases files@.len() - i,
    {
        let f = &files[i];
        let text_ok = query.text.as_str().is_empty() || MarkdownKnowledgeRepository::text_matches(
            query.text.as_str(),
            f.frontmatter.title.as_str(),
            f.body.as_str(),
        );
        let tags_ok = MarkdownKnowledgeRepository::tags_match(query.tags.as_slice(), f.frontmatter.tags.as_slice());
        if text_ok && tags_ok {
            let score: u32 = if query.text.as_str().is_empty() {
                0
            } else {
                let title = crate::markdown_repo::to_lowercase(f.frontmatter.title.as_str());
                let needle = crate::markdown_repo::to_lowercase(query.text.as_str());
                let t = chars_of(title.as_str());
                let n = chars_of(needle.as_str());
                if contains_chars(t.as_slice(), n.as_slice()) {
                    2
                } else {
                    1
                }
            };
            let cs = chars_of(f.body.as_str());
            let snippet = if cs.len() == 0 {
                None
            } else {
                let end: usize = if cs.len() <= 200 {
                    cs.len()
                } else {
                    200
                };
                proof {
                    assert(cs@.subrange(0, end as int) =~= first_chars(f.body@, 200));
                }
                Some(string_from_range(cs.as_slice(), 0, end))
            };
            let res = KnowledgeSearchResult {
                entry: entry_ref_from_frontmatter(f.id.duplicate(), &f.frontmatter, now),
                score,
                snippet,
                permission_required: false,
                confidentiality: None,
            };
            let ghost before = views(results@);
            let ghost before_exec = results@;
            results.push(res);
            proof {
                assert(views(results@) =~= before.push(file_result(files@[i as int], q, now)));
                assert forall|m: int| 0 <= m < results@.len() implies exists|k: int| 0 <= k < i + 1 && (#[trigger] results@[m]).entry.id@ == files@[k].id@ by {
                    if m < before_exec.len() {
                        assert(results@[m] == before_exec[m]);
                        let k = choose|k: int| 0 <= k < i && (#[trigger] before_exec[m]).entry.id@ == files@[k].id@;
                    } else {
                        assert(results@[m].entry.id@ == files@[i as int].id@);
                    }
                }
                assert forall|a: int, b: int|
                    0 <= a < b < results@.len() implies (#[trigger] results@[a]).entry.id@ != (#[trigger] results@[b]).entry.id@ by {
                    if b == results@.len() - 1 {
                        assert(results@[a] == before_exec[a]);
                        let k = choose|k: int| 0 <= k < i && (#[trigger] before_exec[a]).entry.id@ == files@[k].id@;
                        assert(files@[k].id@ != files@[i as int].id@);
                    } else {
                        assert(results@[a] == before_exec[a] && results@[b] == before_exec[b]);
                    }
                }
                assert forall|y: SearchResultView| #[trigger]
                    views(results@).contains(y) <==> exists|k: int|
                        0 <= k < i + 1 && file_matches(#[trigger] files@[k], q) && y == file_result(files@[k], q, now) by {
                    if y == file_result(files@[i as int], q, now) {
                        assert(views(results@)[results@.len() - 1] == y);
                    }
                    if views(results@).contains(y) {
                        let m = choose|m: int| 0 <= m < views(results@).len() && views(results@)[m] == y;
                        if m < before.len() {
                            assert(before[m] == y);
                            assert(before.contains(y));
                        }
                    }
                    if exists|k: int| 0 <= k < i + 1 && file_matches(#[trigger] files@[k], q) && y == file_result(files@[k], q, now) {
                        let k = choose|k: int| 0 <= k < i + 1 && file_matches(#[trigger] files@[k], q) && y == file_result(files@[k], q, now);
                        if k < i {
                            assert(before.contains(y));
                            let m = choose|m: int| 0 <= m < before.len() && before[m] == y;
                            assert(views(results@)[m] == y);
                        }
                    }
                }
            }
        } else {
            proof {
                assert forall|y: SearchResultView| #[trigger]
                    views(results@).contains(y) <==> exists|k: int|
                        0 <= k < i + 1 && file_matches(#[trigger] files@[k], q) && y == file_result(files@[k], q, now) by {
                    if exists|k: int| 0 <= k < i + 1 && file_matches(#[trigger] files@[k], q) && y == file_result(files@[k], q, now) {
                        let k = choose|k: int| 0 <= k < i + 1 && file_matches(#[trigger] files@[k], q) && y == file_result(files@[k], q, now);
                        assert(k < i);
                    }
                }
            }
        }
        i = i + 1;
    }
    let ranked_results = rank_results(results);
    let ghost l = views(ranked_results@);
    let count: usize = if ranked_results.len() <= query.limit {
        ranked_results.len()
    } else {
        query.limit
    };
    let mut out: Vec<KnowledgeSearchResult> = Vec::new();
    let mut k: usize = 0;
    while k < count
        invariant
            k <= count,
            count <= ranked_results@.len(),
            l == views(ranked_results@),
            views(out@) == l.take(k as int),
        decreases count - k,
    {
        let c = ranked_results[k].copy();
        let ghost before = views(out@);
        out.push(c);
        proof {
            assert(l[k as int] == ranked_results@[k as int]@);
            assert(views(out@) =~= before.push(l[k as int]));
            assert(l.take(k + 1) =~= l.take(k as int).push(l[k as int]));
        }
        k = k + 1;
    }
    proof {
        assert(ranked(l));
    }
    out
}

/// The entry id for a file at `relative` (a path below the root, without
/// its extension): `None` for an empty path; backslashes become slashes.
pub fn id_from_relative_path(relative: &str) -> (r: Option<KnowledgeEntryId>)
    ensures
        relative@.len() == 0 ==> r is None,
        relative@.len() > 0 ==> (r matches Some(id) && id@ == relative@.map_values(
            |c: char|
                if c == '\\' {
                    '/'
                } else {
                    c
                },
        )),
{
    let cs = chars_of(relative);
    if cs.len() == 0 {
        return None;
    }
    let mut s = String::new();
    let mut i: usize = 0;
    while i < cs.len()
        invariant
            i <= cs@.len(),
            cs@ == relative@,
            s@ == cs@.take(i as int).map_values(
                |c: char|
                    if c == '\\' {
                        '/'
                    } else {
                        c
                    },
            ),
        decreases cs@.len() - i,
    {
        let c = if cs[i] == '\\' {
            '/'
        } else {
            cs[i]
        };
        push_char(&mut s, c);
        proof {
            assert(cs@.take(i + 1).map_values(
                |c: char|
                    if c == '\\' {
                        '/'
                    } else {
                        c
                    },
            ) =~= cs@.take(i as int).map_values(
                |c: char|
                    if c == '\\' {
                        '/'
                    } else {
                        c
                    },
            ).push(c));
        }
        i = i + 1;
    }
    proof {
        assert(cs@.take(cs@.len() as int) =~= cs@);
    }
    Some(KnowledgeEntryId(s))
}

/// Whether a directory is skipped when walking the repository: its name
/// starts with `.` or `_`.
pub fn is_skipped_dir_name(name: &str) -> (r: bool)
    ensures
        r == (name@.len() > 0 && (name@[0] == '.' || name@[0] == '_')),
{
    let cs = chars_of(name);
    cs.len() > 0 && (cs[0] == '.' || cs[0] == '_')
}

/// The file name, below the root, of entry `id`: the id and `.md`.
pub fn entry_file_name(id: &KnowledgeEntryId) -> (r: String)
    ensures
        r@ == id@ + ".md"@,
{
    let mut s = owned(id.as_str());
    push_str(&mut s, ".md");
    s
}

/// The category a draft's metadata names, or the empty text.
pub fn draft_category(draft: &KnowledgeEntryDraft) -> (r: String)
    ensures
        r@ == metadata_text(draft.metadata, "category"@, ""@),
{
    metadata_value(&draft.metadata, "category", "")
}

/// The entries of parsed files, whose ids are distinct, by increasing id,
/// with `now` standing in for missing dates.
pub fn markdown_listing(files: &Vec<MarkdownFile>, now: i64) -> (r: Vec<KnowledgeEntryRef>)
    requires
        file_ids_distinct(files@),
    ensures
        keys_increasing::<KnowledgeEntryRef>(views(r@)),
        forall|e: KnowledgeEntryRef| #[trigger]
            views(r@).contains(e) <==> exists|i: int|
                0 <= i < files@.len() && e == frontmatter_entry(#[trigger] files@[i].id, files@[i].frontmatter, now),
{
    let mut out: Vec<KnowledgeEntryRef> = Vec::new();
    let mut i: usize = 0;
    while i < files.len()
        invariant
            i <= files@.len(),
            file_ids_distinct(files@),
            keys_increasing::<KnowledgeEntryRef>(views(out@)),
            forall|m: int| 0 <= m < out@.len() ==> exists|k: int| 0 <= k < i && (#[trigger] out@[m]).id@ == files@[k].id@,
            forall|e: KnowledgeEntryRef| #[trigger]
                views(out@).contains(e) <==> exists|k: int|
                    0 <= k < i && e == frontmatter_entry(#[trigger] files@[k].id, files@[k].frontmatter, now),
        decreases files@.len() - i,
    {
        let f = &files[i];
        let e = entry_ref_from_frontmatter(f.id.duplicate(), &f.frontmatter, now);
        let ghost before = views(out@);
        let ghost before_exec = out@;
        proof {
            assert(views(out@) =~= out@);
            if has_key::<KnowledgeEntryRef>(before, e.id@) {
                let m = choose|m: int| 0 <= m < before.len() && #[trigger] before[m].id@ == e.id@;
                assert(out@[m].id@ == before[m].id@);
                let k = choose|k: int| 0 <= k < i && (#[trigger] out@[m]).id@ == files@[k].id@;
                assert(files@[k].id@ != files@[i as int].id@);
            }
        }
        insert_sorted(&mut out, e);
        proof {
            assert(views(out@) =~= out@);
            assert(before =~= before_exec);
            assert forall|m: int| 0 <= m < out@.len() implies exists|k: int| 0 <= k < i + 1 && (#[trigger] out@[m]).id@ == files@[k].id@ by {
                assert(views(out@).contains(out@[m]));
                if out@[m] != e {
                    assert(before.contains(out@[m]));
                    let j = choose|j: int| 0 <= j < before.len() && before[j] == out@[m];
                    let k = choose|k: int| 0 <= k < i && (#[trigger] before_exec[j]).id@ == files@[k].id@;
                } else {
                    assert(out@[m].id@ == files@[i as int].id@);
                }
            }
            assert forall|x: KnowledgeEntryRef| #[trigger]
                views(out@).contains(x) <==> exists|k: int|
                    0 <= k < i + 1 && x == frontmatter_entry(#[trigger] files@[k].id, files@[k].frontmatter, now) by {
                if exists|k: int| 0 <= k < i + 1 && x == frontmatter_entry(#[trigger] files@[k].id, files@[k].frontmatter, now) {
                    let k = choose|k: int| 0 <= k < i + 1 && x == frontmatter_entry(#[trigger] files@[k].id, files@[k].frontmatter, now);
                    if k < i {
                        assert(before.contains(x));
                    }
                }
            }
        }
        i = i + 1;
    }
    out
}

} // verus!
