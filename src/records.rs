//! Building the records that the repository commands return, from the plain
//! values that the Git engine reports: file status entries, commits,
//! branches, remote branches, tags, file history and reflog entries.

use vstd::prelude::*;
use chrono::TimeZone;
use crate::models::{
    BranchInfo, CommitInfo, DiffStat, FileHistoryEntry, FileStatus, ReflogEntry, RemoteBranchInfo,
    TagInfo,
};
use crate::scan::{ends_with, has_prefix, has_suffix, starts_with, trim_prefix_all, trim_start_all};
use crate::text::{
    chars_of, first_line, first_line_of, nfc_of, normalize_unicode, short_sha, signature_of,
    signature_text, string_from_chars,
};

verus! {

/// The rendering `%Y-%m-%d %H:%M:%S` of a Unix timestamp in UTC.
pub uninterp spec fn utc_timestamp_text(ts: i64) -> Seq<char>;

/// The first second that chrono can date: -262143-01-01 00:00:00 UTC.
pub const FIRST_DATED_SECOND: i64 = -8_334_601_228_800;

/// The last second that chrono can date: 262142-12-31 23:59:59 UTC.
pub const LAST_DATED_SECOND: i64 = 8_210_266_876_799;

/// Relies on chrono's `Utc.timestamp_opt(ts, 0)` and `format`:
/// `DateTime::from_timestamp` gives an instant exactly when the day of `ts`
/// falls within chrono's years, -262143 to 262142 (`MIN_YEAR`, `MAX_YEAR`),
/// which are the seconds from `FIRST_DATED_SECOND` to `LAST_DATED_SECOND`;
/// `single` is `None` for the others. The instant is shown as
/// `%Y-%m-%d %H:%M:%S`.
#[verifier::external_body]
fn format_utc(ts: i64) -> (r: Option<String>)
    ensures
        r matches Some(s) ==> s@ == utc_timestamp_text(ts),
        r is Some <==> FIRST_DATED_SECOND <= ts <= LAST_DATED_SECOND,
{
    chrono::Utc.timestamp_opt(ts, 0).single().map(|d| d.format("%Y-%m-%d %H:%M:%S").to_string())
}

/// The status bits of one path that the client shows.
#[derive(Debug, Clone, Copy)]
pub struct StatusFlags {
    pub index_new: bool,
    pub index_modified: bool,
    pub index_deleted: bool,
    pub wt_new: bool,
    pub wt_modified: bool,
    pub wt_deleted: bool,
}

/// The label of the staged change of a path, if it has one.
pub open spec fn index_label(f: StatusFlags) -> Option<Seq<char>> {
    if f.index_new {
        Some("untracked"@)
    } else if f.index_modified {
        Some("modified"@)
    } else if f.index_deleted {
        Some("deleted"@)
    } else {
        None
    }
}

/// The label of the unstaged change of a path, if it has one.
pub open spec fn worktree_label(f: StatusFlags) -> Option<Seq<char>> {
    if f.wt_new {
        Some("untracked"@)
    } else if f.wt_modified {
        Some("modified"@)
    } else if f.wt_deleted {
        Some("deleted"@)
    } else {
        None
    }
}

/// The entries that one path contributes to the status list: one for its
/// staged change, then one for its unstaged change, each where it has one.
pub open spec fn status_rows(f: StatusFlags) -> Seq<(Seq<char>, bool)> {
    let staged = match index_label(f) {
        Some(l) => seq![(l, true)],
        None => seq![],
    };
    let unstaged = match worktree_label(f) {
        Some(l) => seq![(l, false)],
        None => seq![],
    };
    staged + unstaged
}

/// The status entries of one path (already in NFC).
pub fn status_entries(path: String, flags: StatusFlags) -> (r: Vec<FileStatus>)
    ensures
        r@.len() == status_rows(flags).len(),
        forall|i: int|
            0 <= i < r@.len() ==> r@[i].path@ == path@ && r@[i].status@ == status_rows(flags)[i].0
                && r@[i].staged == status_rows(flags)[i].1,
{
    let mut out: Vec<FileStatus> = Vec::new();
    let staged: Option<&str> = if flags.index_new {
        Some("untracked")
    } else if flags.index_modified {
        Some("modified")
    } else if flags.index_deleted {
        Some("deleted")
    } else {
        None
    };
    let unstaged: Option<&str> = if flags.wt_new {
        Some("untracked")
    } else if flags.wt_modified {
        Some("modified")
    } else if flags.wt_deleted {
        Some("deleted")
    } else {
        None
    };
    if let Some(l) = staged {
        out.push(FileStatus { path: path.clone(), status: String::from_str(l), staged: true });
    }
    if let Some(l) = unstaged {
        out.push(FileStatus { path: path.clone(), status: String::from_str(l), staged: false });
    }
    proof {
        let rows = status_rows(flags);
        if staged is Some && unstaged is Some {
            assert(rows =~= seq![(index_label(flags)->0, true), (worktree_label(flags)->0, false)]);
        } else if staged is Some {
            assert(rows =~= seq![(index_label(flags)->0, true)]);
        } else if unstaged is Some {
            assert(rows =~= seq![(worktree_label(flags)->0, false)]);
        } else {
            assert(rows =~= seq![]);
        }
    }
    out
}

/// The statistics entry of a changed file: its path in NFC; the line
/// counts are not computed and stay 0.
pub fn diff_stat_entry(path: &str, is_binary: bool) -> (r: DiffStat)
    ensures
        r.file_path@ == nfc_of(path@),
        r.additions == 0,
        r.deletions == 0,
        r.is_binary == is_binary,
{
    DiffStat { file_path: normalize_unicode(path), additions: 0, deletions: 0, is_binary }
}

/// A commit as the history view lists it; `None` exactly where the
/// timestamp lies outside the calendar that dates can be shown in.
pub fn commit_info(
    sha: String,
    author: Option<&str>,
    email: Option<&str>,
    message: Option<&str>,
    timestamp: i64,
    parent_ids: Vec<String>,
) -> (r: Option<CommitInfo>)
    ensures
        r is Some <==> FIRST_DATED_SECOND <= timestamp <= LAST_DATED_SECOND,
        r matches Some(c) ==> {
            &&& c.sha@ == sha@
            &&& c.author@ == match author {
                Some(a) => a@,
                None => "Unknown"@,
            }
            &&& c.email@ == match email {
                Some(e) => e@,
                None => ""@,
            }
            &&& c.message@ == match message {
                Some(m) => m@,
                None => ""@,
            }
            &&& c.timestamp == timestamp
            &&& c.date@ == utc_timestamp_text(timestamp)
            &&& c.parent_ids@ == parent_ids@
        },
{
    let date = match format_utc(timestamp) {
        Some(d) => d,
        None => return None,
    };
    Some(
        CommitInfo {
            sha,
            author: String::from_str(author.unwrap_or("Unknown")),
            email: String::from_str(email.unwrap_or("")),
            message: String::from_str(message.unwrap_or("")),
            timestamp,
            date,
            parent_ids,
        },
    )
}

/// A local branch as the branch list shows it: the name in NFC, the commit
/// id abbreviated, the first line of the commit message.
pub fn branch_info(
    name: &str,
    is_current: bool,
    sha: &str,
    message: Option<&str>,
    author: Option<&str>,
    timestamp: i64,
) -> (r: BranchInfo)
    requires
        sha@.len() >= 7,
    ensures
        r.name@ == nfc_of(name@),
        r.is_current == is_current,
        !r.is_remote,
        r.commit_sha@ == sha@.take(7),
        r.commit_message@ == first_line_of(
            match message {
                Some(m) => m@,
                None => ""@,
            },
        ),
        r.author@ == match author {
            Some(a) => a@,
            None => "Unknown"@,
        },
        r.timestamp == timestamp,
{
    BranchInfo {
        name: normalize_unicode(name),
        is_current,
        is_remote: false,
        commit_sha: short_sha(sha),
        commit_message: first_line(message.unwrap_or("")),
        author: String::from_str(author.unwrap_or("Unknown")),
        timestamp,
    }
}

/// `v` as a sequence of the current branches followed by the others, each
/// group in the order it had in `v`.
pub open spec fn current_first_spec(v: Seq<BranchInfo>) -> Seq<BranchInfo> {
    v.filter(|b: BranchInfo| b.is_current) + v.filter(|b: BranchInfo| !b.is_current)
}

/// The elements of `v` in reverse order.
pub fn reversed<T>(v: Vec<T>) -> (r: Vec<T>)
    ensures
        r@ == v@.reverse(),
{
    let mut src = v;
    let ghost orig = src@;
    let mut out: Vec<T> = Vec::new();
    while src.len() > 0
        invariant
            src@.len() <= orig.len(),
            src@ == orig.take(src@.len() as int),
            out@ == orig.skip(src@.len() as int).reverse(),
        decreases src.len(),
    {
        let ghost n = src@.len();
        let x = src.pop().unwrap();
        out.push(x);
        proof {
            assert(src@ =~= orig.take(n - 1));
            assert(out@ =~= orig.skip(n - 1).reverse());
        }
    }
    proof {
        assert(orig.skip(0) =~= orig);
    }
    out
}

/// Orders a branch list with the current branch first, keeping the order
/// of the others (a stable sort on "is current").
pub fn current_first(branches: Vec<BranchInfo>) -> (r: Vec<BranchInfo>)
    ensures
        r@ == current_first_spec(branches@),
{
    let ghost orig = branches@;
    let mut src = reversed(branches);
    let mut cur: Vec<BranchInfo> = Vec::new();
    let mut rest: Vec<BranchInfo> = Vec::new();
    let ghost is_cur = |b: BranchInfo| b.is_current;
    let ghost not_cur = |b: BranchInfo| !b.is_current;
    while src.len() > 0
        invariant
            src@.len() <= orig.len(),
            src@ == orig.skip(orig.len() - src@.len()).reverse(),
            cur@ == orig.take(orig.len() - src@.len()).filter(is_cur),
            rest@ == orig.take(orig.len() - src@.len()).filter(not_cur),
            is_cur == (|b: BranchInfo| b.is_current),
            not_cur == (|b: BranchInfo| !b.is_current),
        decreases src.len(),
    {
        let ghost k = orig.len() - src@.len();
        let b = src.pop().unwrap();
        proof {
            assert(b == orig[k]);
            assert(src@ =~= orig.skip(k + 1).reverse());
            assert(orig.take(k + 1).drop_last() =~= orig.take(k));
            reveal(Seq::filter);
        }
        if b.is_current {
            cur.push(b);
        } else {
            rest.push(b);
        }
    }
    proof {
        assert(orig.take(orig.len() as int) =~= orig);
    }
    cur.append(&mut rest);
    cur
}

/// A branch of a remote, when its name (`remote/branch`) belongs to
/// `remote`: the short name loses the leading `remote/`s, both names are in
/// NFC, and the branch is the remote's HEAD when its name ends in `/HEAD`.
pub fn remote_branch_info(name: &str, remote: &str, sha: &str, message: Option<&str>) -> (r: Option<
    RemoteBranchInfo,
>)
    requires
        sha@.len() >= 7,
    ensures
        !has_prefix(name@, remote@ + "/"@) ==> r is None,
        has_prefix(name@, remote@ + "/"@) ==> (r matches Some(b) && {
            &&& b.name@ == nfc_of(trim_prefix_all(name@, remote@ + "/"@))
            &&& b.full_name@ == nfc_of(name@)
            &&& b.commit_sha@ == sha@.take(7)
            &&& b.commit_message@ == first_line_of(
                match message {
                    Some(m) => m@,
                    None => ""@,
                },
            )
            &&& b.is_head == has_suffix(name@, "/HEAD"@)
        }),
{
    let n = chars_of(name);
    let mut prefix = String::from_str(remote);
    prefix.append("/");
    let p = chars_of(prefix.as_str());
    if !starts_with(&n, &p) {
        return None;
    }
    proof {
        reveal_strlit("/");
        assert(p@.len() > 0);
    }
    let short = string_from_chars(trim_start_all(&n, &p).as_slice());
    Some(
        RemoteBranchInfo {
            name: normalize_unicode(short.as_str()),
            full_name: normalize_unicode(name),
            commit_sha: short_sha(sha),
            commit_message: first_line(message.unwrap_or("")),
            is_head: ends_with(&n, &chars_of("/HEAD")),
        },
    )
}

/// The author or tagger of a tag, as engine reports it: name, email and
/// time, each name or email possibly missing.
pub struct Tagger<'a> {
    pub name: Option<&'a str>,
    pub email: Option<&'a str>,
    pub when: i64,
}

/// A tag as the tag list shows it. An annotated tag has a tagger, shown as
/// `name <email>` (a missing part is empty), and its time is the tag's date.
pub fn tag_info(name: String, target: String, message: Option<String>, tagger: Option<Tagger>) -> (r:
    TagInfo)
    ensures
        r.name@ == name@,
        r.target@ == target@,
        r.message == message,
        match tagger {
            Some(t) => (r.tagger matches Some(s) && s@ == signature_of(
                match t.name {
                    Some(n) => n@,
                    None => ""@,
                },
                match t.email {
                    Some(e) => e@,
                    None => ""@,
                },
            ) && r.date == Some(t.when)),
            None => r.tagger is None && r.date is None,
        },
{
    let (tagger_text, date) = match tagger {
        Some(t) => (
            Some(signature_text(t.name.unwrap_or(""), t.email.unwrap_or(""))),
            Some(t.when),
        ),
        None => (None, None),
    };
    TagInfo { name, target, message, tagger: tagger_text, date }
}

/// Where a stable sort inserts `x` into the sorted `s`, searching from `i`:
/// before the first element that `x` must precede, else at the end.
pub open spec fn insert_pos<T>(s: Seq<T>, x: T, before: spec_fn(T, T) -> bool, i: int) -> int
    decreases s.len() - i,
{
    if i < 0 || i >= s.len() || before(x, s[i]) {
        i
    } else {
        insert_pos(s, x, before, i + 1)
    }
}

/// The stable sort of `s` by the strict order `before`: each element in
/// turn is inserted after every element it need not precede, so elements
/// that tie keep their order.
pub open spec fn stable_sorted<T>(s: Seq<T>, before: spec_fn(T, T) -> bool) -> Seq<T>
    decreases s.len(),
{
    if s.len() == 0 {
        seq![]
    } else {
        let r = stable_sorted(s.drop_last(), before);
        r.insert(insert_pos(r, s.last(), before, 0), s.last())
    }
}

/// The first position that `x` must precede is the insertion position.
pub proof fn lemma_insert_pos<T>(s: Seq<T>, x: T, before: spec_fn(T, T) -> bool, i: int, p: int)
    requires
        0 <= i <= p <= s.len(),
        forall|k: int| i <= k < p ==> !before(x, #[trigger] s[k]),
        p == s.len() || before(x, s[p]),
    ensures
        insert_pos(s, x, before, i) == p,
    decreases p - i,
{
    if i < p {
        lemma_insert_pos(s, x, before, i + 1, p);
    }
}

/// The order of `String`s: lexicographic by characters (which is the byte
/// order of their UTF-8 forms).
pub open spec fn text_lt(a: Seq<char>, b: Seq<char>) -> bool
    decreases a.len(),
{
    if a.len() == 0 {
        b.len() > 0
    } else if b.len() == 0 {
        false
    } else if a[0] != b[0] {
        a[0] < b[0]
    } else {
        text_lt(a.drop_first(), b.drop_first())
    }
}

proof fn lemma_text_lt_asym(a: Seq<char>, b: Seq<char>)
    ensures
        !(text_lt(a, b) && text_lt(b, a)),
    decreases a.len(),
{
    if a.len() > 0 && b.len() > 0 && a[0] == b[0] {
        lemma_text_lt_asym(a.drop_first(), b.drop_first());
    }
}

proof fn lemma_text_lt_trans(a: Seq<char>, b: Seq<char>, c: Seq<char>)
    requires
        text_lt(a, b),
        text_lt(b, c),
    ensures
        text_lt(a, c),
    decreases a.len(),
{
    if a.len() > 0 && b.len() > 0 && c.len() > 0 && a[0] == b[0] && b[0] == c[0] {
        lemma_text_lt_trans(a.drop_first(), b.drop_first(), c.drop_first());
    }
}

/// Whether `a` is below `b` in the `String` order.
fn text_less(a: &Vec<char>, b: &Vec<char>) -> (r: bool)
    ensures
        r == text_lt(a@, b@),
{
    let mut i: usize = 0;
    proof {
        assert(a@.skip(0) =~= a@);
        assert(b@.skip(0) =~= b@);
    }
    while i < a.len() && i < b.len() && a[i] == b[i]
        invariant
            i <= a.len(),
            i <= b.len(),
            text_lt(a@, b@) == text_lt(a@.skip(i as int), b@.skip(i as int)),
        decreases a.len() - i,
    {
        proof {
            assert(a@.skip(i as int).drop_first() =~= a@.skip(i + 1));
            assert(b@.skip(i as int).drop_first() =~= b@.skip(i + 1));
        }
        i = i + 1;
    }
    if i == a.len() {
        i < b.len()
    } else if i == b.len() {
        false
    } else {
        a[i] < b[i]
    }
}

/// The order of the tag list: tags without a date come first, by name;
/// then dated tags, newest first.
pub open spec fn tag_before(a: TagInfo, b: TagInfo) -> bool {
    match (a.date, b.date) {
        (None, None) => text_lt(a.name@, b.name@),
        (None, Some(_)) => true,
        (Some(_), None) => false,
        (Some(x), Some(y)) => x > y,
    }
}

proof fn lemma_tag_before_asym(a: TagInfo, b: TagInfo)
    ensures
        !(tag_before(a, b) && tag_before(b, a)),
{
    lemma_text_lt_asym(a.name@, b.name@);
}

proof fn lemma_tag_before_trans(a: TagInfo, b: TagInfo, c: TagInfo)
    requires
        tag_before(a, b),
        tag_before(b, c),
    ensures
        tag_before(a, c),
{
    if a.date is None && b.date is None && c.date is None {
        lemma_text_lt_trans(a.name@, b.name@, c.name@);
    }
}

/// The order of the tag list as a function.
pub open spec fn tag_order() -> spec_fn(TagInfo, TagInfo) -> bool {
    |a: TagInfo, b: TagInfo| tag_before(a, b)
}

/// No tag comes after one that it should precede.
pub open spec fn tags_ordered(s: Seq<TagInfo>) -> bool {
    forall|i: int, j: int| 0 <= i < j < s.len() ==> !tag_before(#[trigger] s[j], #[trigger] s[i])
}

fn tag_less(a: &TagInfo, b: &TagInfo) -> (r: bool)
    ensures
        r == tag_before(*a, *b),
{
    match (a.date, b.date) {
        (None, None) => text_less(&chars_of(a.name.as_str()), &chars_of(b.name.as_str())),
        (None, Some(_)) => true,
        (Some(_), None) => false,
        (Some(x), Some(y)) => x > y,
    }
}

/// Orders the tag list: undated tags first, by name, then dated tags,
/// newest first; tags that tie keep their order.
pub fn sort_tags(tags: Vec<TagInfo>) -> (r: Vec<TagInfo>)
    ensures
        r@ == stable_sorted(tags@, tag_order()),
        tags_ordered(r@),
        r@.to_multiset() == tags@.to_multiset(),
{
    let ghost orig = tags@;
    let mut src = reversed(tags);
    let mut out: Vec<TagInfo> = Vec::new();
    proof {
        assert(orig.take(0) =~= out@);
        assert(orig.skip(0) =~= orig);
    }
    while src.len() > 0
        invariant
            src@.len() <= orig.len(),
            src@ == orig.skip(orig.len() - src@.len()).reverse(),
            tags_ordered(out@),
            out@.to_multiset() == orig.take(orig.len() - src@.len()).to_multiset(),
            out@ == stable_sorted(orig.take(orig.len() - src@.len()), tag_order()),
        decreases src.len(),
    {
        let ghost k = orig.len() - src@.len();
        let x = src.pop().unwrap();
        proof {
            assert(x == orig[k]);
            assert(src@ =~= orig.skip(k + 1).reverse());
            assert(orig.take(k + 1) =~= orig.take(k).push(x));
        }
        let mut p: usize = 0;
        while p < out.len() && !tag_less(&x, &out[p])
            invariant
                p <= out.len(),
                forall|i: int| 0 <= i < p ==> !tag_before(x, #[trigger] out@[i]),
            decreases out.len() - p,
        {
            p = p + 1;
        }
        let ghost before = out@;
        proof {
            lemma_insert_pos(before, x, tag_order(), 0, p as int);
            assert(orig.take(k + 1).drop_last() =~= orig.take(k));
        }
        out.insert(p, x);
        proof {
            vstd::seq_lib::to_multiset_insert(before, p as int, x);
            vstd::seq_lib::to_multiset_build(orig.take(k), x);
            assert forall|i: int, j: int| 0 <= i < j < out@.len() implies !tag_before(
                #[trigger] out@[j],
                #[trigger] out@[i],
            ) by {
                if j < p {
                    assert(out@[i] == before[i] && out@[j] == before[j]);
                } else if j == p {
                    assert(out@[i] == before[i]);
                } else if i < p {
                    assert(out@[i] == before[i] && out@[j] == before[j - 1]);
                } else if i == p {
                    let z = before[p as int];
                    let y = before[j - 1];
                    assert(tag_before(x, z));
                    if tag_before(y, x) {
                        if j - 1 == p {
                            lemma_tag_before_asym(x, z);
                        } else {
                            lemma_tag_before_trans(y, x, z);
                            assert(!tag_before(before[j - 1], before[p as int]));
                        }
                    }
                } else {
                    assert(out@[i] == before[i - 1] && out@[j] == before[j - 1]);
                }
            }
        }
    }
    proof {
        assert(orig.take(orig.len() as int) =~= orig);
    }
    out
}

/// The kind of change that a commit made to a file.
#[derive(Debug, Clone, Copy, PartialEq, Eq, Structural)]
pub enum DeltaKind {
    Added,
    Deleted,
    Modified,
    Renamed,
    Other,
}

pub open spec fn delta_label_of(k: DeltaKind) -> Seq<char> {
    match k {
        DeltaKind::Added => "added"@,
        DeltaKind::Deleted => "deleted"@,
        DeltaKind::Modified => "modified"@,
        DeltaKind::Renamed => "renamed"@,
        DeltaKind::Other => "unknown"@,
    }
}

/// The label of a kind of change.
pub fn delta_label(k: DeltaKind) -> (r: &'static str)
    ensures
        r@ == delta_label_of(k),
{
    match k {
        DeltaKind::Added => "added",
        DeltaKind::Deleted => "deleted",
        DeltaKind::Modified => "modified",
        DeltaKind::Renamed => "renamed",
        DeltaKind::Other => "unknown",
    }
}

/// The number of commits a file history shows: 100 unless asked otherwise.
pub fn history_limit(limit: Option<usize>) -> (r: usize)
    ensures
        r == match limit {
            Some(n) => n,
            None => 100,
        },
{
    limit.unwrap_or(100)
}

/// One entry of a file's history. The author is `name <email>`, with
/// "Unknown" and "unknown@example.com" for missing parts; the old path is
/// kept only for a rename.
pub fn file_history_entry(
    sha: String,
    message: Option<&str>,
    author_name: Option<&str>,
    author_email: Option<&str>,
    date: i64,
    kind: DeltaKind,
    old_path: Option<String>,
) -> (r: FileHistoryEntry)
    ensures
        r.commit_sha@ == sha@,
        r.message@ == match message {
            Some(m) => m@,
            None => "No message"@,
        },
        r.author@ == signature_of(
            match author_name {
                Some(n) => n@,
                None => "Unknown"@,
            },
            match author_email {
                Some(e) => e@,
                None => "unknown@example.com"@,
            },
        ),
        r.date == date,
        r.changes@ == delta_label_of(kind),
        r.old_path == if kind == DeltaKind::Renamed {
            old_path
        } else {
            None
        },
{
    FileHistoryEntry {
        commit_sha: sha,
        message: String::from_str(message.unwrap_or("No message")),
        author: signature_text(author_name.unwrap_or("Unknown"), author_email.unwrap_or("unknown@example.com")),
        date,
        changes: String::from_str(delta_label(kind)),
        old_path: if kind == DeltaKind::Renamed {
            old_path
        } else {
            None
        },
    }
}

/// One reflog entry. The committer is `name <email>`, with "Unknown" and
/// "unknown@example.com" for missing parts.
pub fn reflog_entry(
    index: usize,
    old_oid: String,
    new_oid: String,
    message: Option<&str>,
    name: Option<&str>,
    email: Option<&str>,
    timestamp: i64,
) -> (r: ReflogEntry)
    ensures
        r.index == index,
        r.old_oid@ == old_oid@,
        r.new_oid@ == new_oid@,
        r.message@ == match message {
            Some(m) => m@,
            None => "No message"@,
        },
        r.committer@ == signature_of(
            match name {
                Some(n) => n@,
                None => "Unknown"@,
            },
            match email {
                Some(e) => e@,
                None => "unknown@example.com"@,
            },
        ),
        r.timestamp == timestamp,
{
    ReflogEntry {
        index,
        old_oid,
        new_oid,
        message: String::from_str(message.unwrap_or("No message")),
        committer: signature_text(name.unwrap_or("Unknown"), email.unwrap_or("unknown@example.com")),
        timestamp,
    }
}

} // verus!
