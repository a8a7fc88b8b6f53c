//! Parsing of unified diff text (as `git diff` prints it for one file) into
//! hunks and numbered lines.
//!
//! The parser reads the text line by line and keeps a small state: the
//! paths seen so far, the finished hunks, the hunk being filled, and the
//! next old and new line numbers. `scan_line` states one step of it and
//! `diff_model` the whole parse; `parse_diff_text` is proved to compute it.

use vstd::prelude::*;
use crate::scan::{
    has_prefix, lines_of, parse_u32, parse_u32_spec, seqs_of, split_chars, split_lines, split_on,
    split_words, starts_with, tail_from, trim_prefix_all, trim_start_all, words_of,
};
use crate::text::{chars_of, nfc_of, normalize_unicode, string_from_chars};

verus! {

/// One line of a hunk. `line_type` is "context", "addition" or "deletion";
/// an addition has no old line number and a deletion no new one.
#[derive(Debug, Clone)]
pub struct DiffLine {
    pub line_type: String,
    pub old_line_no: Option<u32>,
    pub new_line_no: Option<u32>,
    pub content: String,
}

/// A hunk: the ranges of its `@@` header and its lines.
#[derive(Debug, Clone)]
pub struct DiffHunk {
    pub old_start: u32,
    pub old_lines: u32,
    pub new_start: u32,
    pub new_lines: u32,
    pub header: String,
    pub lines: Vec<DiffLine>,
}

/// The parsed diff of one file.
#[derive(Debug, Clone)]
pub struct ParsedDiff {
    pub file_path: String,
    pub old_path: String,
    pub new_path: String,
    pub is_binary: bool,
    pub hunks: Vec<DiffHunk>,
    pub additions: u32,
    pub deletions: u32,
}

pub struct LineModel {
    pub line_type: Seq<char>,
    pub old_line_no: Option<u32>,
    pub new_line_no: Option<u32>,
    pub content: Seq<char>,
}

pub struct HunkModel {
    pub old_start: u32,
    pub old_lines: u32,
    pub new_start: u32,
    pub new_lines: u32,
    pub header: Seq<char>,
    pub lines: Seq<LineModel>,
}

pub struct DiffModel {
    pub file_path: Seq<char>,
    pub old_path: Seq<char>,
    pub new_path: Seq<char>,
    pub is_binary: bool,
    pub hunks: Seq<HunkModel>,
    pub additions: u32,
    pub deletions: u32,
}

impl View for DiffLine {
    type V = LineModel;

    open spec fn view(&self) -> LineModel {
        LineModel {
            line_type: self.line_type@,
            old_line_no: self.old_line_no,
            new_line_no: self.new_line_no,
            content: self.content@,
        }
    }
}

pub open spec fn line_views(v: Seq<DiffLine>) -> Seq<LineModel> {
    v.map_values(|l: DiffLine| l@)
}

impl View for DiffHunk {
    type V = HunkModel;

    open spec fn view(&self) -> HunkModel {
        HunkModel {
            old_start: self.old_start,
            old_lines: self.old_lines,
            new_start: self.new_start,
            new_lines: self.new_lines,
            header: self.header@,
            lines: line_views(self.lines@),
        }
    }
}

pub open spec fn hunk_views(v: Seq<DiffHunk>) -> Seq<HunkModel> {
    v.map_values(|h: DiffHunk| h@)
}

impl View for ParsedDiff {
    type V = DiffModel;

    open spec fn view(&self) -> DiffModel {
        DiffModel {
            file_path: self.file_path@,
            old_path: self.old_path@,
            new_path: self.new_path@,
            is_binary: self.is_binary,
            hunks: hunk_views(self.hunks@),
            additions: self.additions,
            deletions: self.deletions,
        }
    }
}

/// The parser's state between two lines.
pub struct ScanState {
    pub file_path: Seq<char>,
    pub old_path: Seq<char>,
    pub new_path: Seq<char>,
    pub is_binary: bool,
    pub hunks: Seq<HunkModel>,
    pub current: Option<HunkModel>,
    pub old_no: u32,
    pub new_no: u32,
    pub additions: u32,
    pub deletions: u32,
}

pub open spec fn initial_state() -> ScanState {
    ScanState {
        file_path: seq![],
        old_path: seq![],
        new_path: seq![],
        is_binary: false,
        hunks: seq![],
        current: None,
        old_no: 0,
        new_no: 0,
        additions: 0,
        deletions: 0,
    }
}

/// A counter one up, wrapping at `u32::MAX`.
pub open spec fn bump(n: u32) -> u32 {
    if n == u32::MAX {
        0
    } else {
        (n + 1) as u32
    }
}

/// A number of a hunk header, 1 where it does not parse.
pub open spec fn number_or_one(s: Seq<char>) -> u32 {
    match parse_u32_spec(s) {
        Some(v) => v,
        None => 1,
    }
}

/// Start and length of one range of a hunk header (`-3,4` or `+7`) once
/// the leading `sign`s are removed; a missing length is 1.
pub open spec fn hunk_range(part: Seq<char>, sign: char) -> (u32, u32) {
    let fields = split_on(trim_prefix_all(part, seq![sign]), ',');
    (number_or_one(fields[0]), if fields.len() > 1 { number_or_one(fields[1]) } else { 1 })
}

/// The hunk that a `@@` line opens: its second and third words give the
/// old and new ranges. A line with fewer than three words opens none.
pub open spec fn hunk_header(line: Seq<char>) -> Option<HunkModel> {
    let parts = words_of(line);
    if parts.len() >= 3 {
        let (os, ol) = hunk_range(parts[1], '-');
        let (ns, nl) = hunk_range(parts[2], '+');
        Some(
            HunkModel {
                old_start: os,
                old_lines: ol,
                new_start: ns,
                new_lines: nl,
                header: line,
                lines: seq![],
            },
        )
    } else {
        None
    }
}

pub open spec fn with_line(h: HunkModel, l: LineModel) -> HunkModel {
    HunkModel { lines: h.lines.push(l), ..h }
}

/// One step of the parser. A line is read as the first of these that fits:
/// a `diff --git` header (its third word, without leading `a/`s, is the
/// file path), a `---` or `+++` path line, a `Binary files` line, a `@@`
/// hunk header (the open hunk is closed), or, inside a hunk, an added,
/// deleted or context line (`+`, `-`, space). Other lines change nothing.
pub open spec fn scan_line(st: ScanState, line: Seq<char>) -> ScanState {
    if has_prefix(line, "diff --git"@) {
        let w = words_of(line);
        if w.len() > 2 {
            ScanState { file_path: trim_prefix_all(w[2], "a/"@), ..st }
        } else {
            st
        }
    } else if has_prefix(line, "---"@) {
        ScanState { old_path: trim_prefix_all(line, "--- a/"@), ..st }
    } else if has_prefix(line, "+++"@) {
        ScanState { new_path: trim_prefix_all(line, "+++ b/"@), ..st }
    } else if has_prefix(line, "Binary files"@) {
        ScanState { is_binary: true, ..st }
    } else if has_prefix(line, "@@"@) {
        let hunks = match st.current {
            Some(h) => st.hunks.push(h),
            None => st.hunks,
        };
        match hunk_header(line) {
            Some(h) => ScanState {
                hunks,
                current: Some(h),
                old_no: h.old_start,
                new_no: h.new_start,
                ..st
            },
            None => ScanState { hunks, current: None, ..st },
        }
    } else if st.current is Some && line.len() > 0 {
        let h = st.current->Some_0;
        let content = line.drop_first();
        if line[0] == '+' {
            let l = LineModel {
                line_type: "addition"@,
                old_line_no: None,
                new_line_no: Some(st.new_no),
                content,
            };
            ScanState {
                current: Some(with_line(h, l)),
                new_no: bump(st.new_no),
                additions: bump(st.additions),
                ..st
            }
        } else if line[0] == '-' {
            let l = LineModel {
                line_type: "deletion"@,
                old_line_no: Some(st.old_no),
                new_line_no: None,
                content,
            };
            ScanState {
                current: Some(with_line(h, l)),
                old_no: bump(st.old_no),
                deletions: bump(st.deletions),
                ..st
            }
        } else if line[0] == ' ' {
            let l = LineModel {
                line_type: "context"@,
                old_line_no: Some(st.old_no),
                new_line_no: Some(st.new_no),
                content,
            };
            ScanState {
                current: Some(with_line(h, l)),
                old_no: bump(st.old_no),
                new_no: bump(st.new_no),
                ..st
            }
        } else {
            st
        }
    } else {
        st
    }
}

/// The state after reading `lines` in order.
pub open spec fn scan_lines(lines: Seq<Seq<char>>) -> ScanState
    decreases lines.len(),
{
    if lines.len() == 0 {
        initial_state()
    } else {
        scan_line(scan_lines(lines.drop_last()), lines.last())
    }
}

/// The parse result of a final state: the open hunk, if any, is closed.
pub open spec fn finish(st: ScanState) -> DiffModel {
    DiffModel {
        file_path: st.file_path,
        old_path: st.old_path,
        new_path: st.new_path,
        is_binary: st.is_binary,
        hunks: match st.current {
            Some(h) => st.hunks.push(h),
            None => st.hunks,
        },
        additions: st.additions,
        deletions: st.deletions,
    }
}

/// The parse of a whole diff text, before the paths are normalized.
pub open spec fn diff_model(text: Seq<char>) -> DiffModel {
    finish(scan_lines(lines_of(text)))
}

/// The parse of a diff text with its three paths in NFC.
pub open spec fn normalized_diff_model(text: Seq<char>) -> DiffModel {
    let m = diff_model(text);
    DiffModel {
        file_path: nfc_of(m.file_path),
        old_path: nfc_of(m.old_path),
        new_path: nfc_of(m.new_path),
        ..m
    }
}

/// The marker texts, as characters.
struct Markers {
    diff_git: Vec<char>,
    minus3: Vec<char>,
    plus3: Vec<char>,
    binary: Vec<char>,
    at2: Vec<char>,
    a_slash: Vec<char>,
    old_prefix: Vec<char>,
    new_prefix: Vec<char>,
}

impl Markers {
    spec fn wf(&self) -> bool {
        &&& self.diff_git@ == "diff --git"@
        &&& self.minus3@ == "---"@
        &&& self.plus3@ == "+++"@
        &&& self.binary@ == "Binary files"@
        &&& self.at2@ == "@@"@
        &&& self.a_slash@ == "a/"@
        &&& self.old_prefix@ == "--- a/"@
        &&& self.new_prefix@ == "+++ b/"@
        &&& self.a_slash@.len() > 0
        &&& self.old_prefix@.len() > 0
        &&& self.new_prefix@.len() > 0
    }

    fn new() -> (r: Markers)
        ensures
            r.wf(),
    {
        proof {
            reveal_strlit("a/");
            reveal_strlit("--- a/");
            reveal_strlit("+++ b/");
        }
        Markers {
            diff_git: chars_of("diff --git"),
            minus3: chars_of("---"),
            plus3: chars_of("+++"),
            binary: chars_of("Binary files"),
            at2: chars_of("@@"),
            a_slash: chars_of("a/"),
            old_prefix: chars_of("--- a/"),
            new_prefix: chars_of("+++ b/"),
        }
    }
}

/// The parser's state in exec form.
struct Scanner {
    file_path: Vec<char>,
    old_path: Vec<char>,
    new_path: Vec<char>,
    is_binary: bool,
    hunks: Vec<DiffHunk>,
    current: Option<DiffHunk>,
    old_no: u32,
    new_no: u32,
    additions: u32,
    deletions: u32,
}

impl View for Scanner {
    type V = ScanState;

    closed spec fn view(&self) -> ScanState {
        ScanState {
            file_path: self.file_path@,
            old_path: self.old_path@,
            new_path: self.new_path@,
            is_binary: self.is_binary,
            hunks: hunk_views(self.hunks@),
            current: match self.current {
                Some(h) => Some(h@),
                None => None,
            },
            old_no: self.old_no,
            new_no: self.new_no,
            additions: self.additions,
            deletions: self.deletions,
        }
    }
}

fn bump_exec(n: u32) -> (r: u32)
    ensures
        r == bump(n),
{
    if n == u32::MAX {
        0
    } else {
        n + 1
    }
}

/// Number of a hunk header field, 1 where it does not parse.
fn number_or_one_exec(s: &Vec<char>) -> (r: u32)
    ensures
        r == number_or_one(s@),
{
    match parse_u32(s) {
        Some(v) => v,
        None => 1,
    }
}

fn hunk_range_exec(part: &Vec<char>, sign: char) -> (r: (u32, u32))
    ensures
        r == hunk_range(part@, sign),
{
    let mut sign_v: Vec<char> = Vec::new();
    sign_v.push(sign);
    proof {
        assert(sign_v@ =~= seq![sign]);
    }
    let trimmed = trim_start_all(part, &sign_v);
    let fields = split_chars(&trimmed, ',');
    let ghost fs = split_on(trimmed@, ',');
    proof {
        assert(fs.len() >= 1);
        assert(fields@.len() == fs.len());
        assert(fields@[0]@ == fs[0]);
    }
    let start = number_or_one_exec(&fields[0]);
    let count = if fields.len() > 1 {
        proof {
            assert(fields@[1]@ == fs[1]);
        }
        number_or_one_exec(&fields[1])
    } else {
        1
    };
    (start, count)
}

fn new_line(kind: &str, old_no: Option<u32>, new_no: Option<u32>, line: &Vec<char>) -> (r: DiffLine)
    requires
        line.len() > 0,
    ensures
        r@ == (LineModel {
            line_type: kind@,
            old_line_no: old_no,
            new_line_no: new_no,
            content: line@.drop_first(),
        }),
{
    let rest = tail_from(line, 1);
    proof {
        assert(rest@ =~= line@.drop_first());
    }
    DiffLine {
        line_type: String::from_str(kind),
        old_line_no: old_no,
        new_line_no: new_no,
        content: string_from_chars(rest.as_slice()),
    }
}

proof fn lemma_hunk_views_push(v: Seq<DiffHunk>, h: DiffHunk)
    ensures
        hunk_views(v.push(h)) == hunk_views(v).push(h@),
{
    assert(hunk_views(v.push(h)) =~= hunk_views(v).push(h@));
}

proof fn lemma_line_views_push(v: Seq<DiffLine>, l: DiffLine)
    ensures
        line_views(v.push(l)) == line_views(v).push(l@),
{
    assert(line_views(v.push(l)) =~= line_views(v).push(l@));
}

impl Scanner {
    fn new() -> (r: Scanner)
        ensures
            r@ == initial_state(),
    {
        let r = Scanner {
            file_path: Vec::new(),
            old_path: Vec::new(),
            new_path: Vec::new(),
            is_binary: false,
            hunks: Vec::new(),
            current: None,
            old_no: 0,
            new_no: 0,
            additions: 0,
            deletions: 0,
        };
        proof {
            assert(hunk_views(r.hunks@) =~= seq![]);
            assert(r@.file_path =~= seq![]);
            assert(r@.old_path =~= seq![]);
            assert(r@.new_path =~= seq![]);
        }
        r
    }

    /// Adds a line to the open hunk.
    fn push_line(&mut self, l: DiffLine)
        requires
            old(self).current is Some,
        ensures
            final(self)@ == (ScanState {
                current: Some(with_line(old(self)@.current->Some_0, l@)),
                ..old(self)@
            }),
    {
        let mut h = self.current.take().unwrap();
        proof {
            lemma_line_views_push(h.lines@, l);
        }
        h.lines.push(l);
        self.current = Some(h);
    }

    fn read_line(&mut self, line: &Vec<char>, m: &Markers)
        requires
            m.wf(),
        ensures
            final(self)@ == scan_line(old(self)@, line@),
    {
        if starts_with(line, &m.diff_git) {
            let w = split_words(line);
            if w.len() > 2 {
                proof {
                    assert(w@[2]@ == words_of(line@)[2]);
                }
                self.file_path = trim_start_all(&w[2], &m.a_slash);
            }
        } else if starts_with(line, &m.minus3) {
            self.old_path = trim_start_all(line, &m.old_prefix);
        } else if starts_with(line, &m.plus3) {
            self.new_path = trim_start_all(line, &m.new_prefix);
        } else if starts_with(line, &m.binary) {
            self.is_binary = true;
        } else if starts_with(line, &m.at2) {
            match self.current.take() {
                Some(h) => {
                    proof {
                        lemma_hunk_views_push(self.hunks@, h);
                    }
                    self.hunks.push(h);
                },
                None => {},
            }
            let parts = split_words(line);
            if parts.len() >= 3 {
                proof {
                    assert(parts@[1]@ == words_of(line@)[1]);
                    assert(parts@[2]@ == words_of(line@)[2]);
                }
                let (os, ol) = hunk_range_exec(&parts[1], '-');
                let (ns, nl) = hunk_range_exec(&parts[2], '+');
                let h = DiffHunk {
                    old_start: os,
                    old_lines: ol,
                    new_start: ns,
                    new_lines: nl,
                    header: string_from_chars(line.as_slice()),
                    lines: Vec::new(),
                };
                proof {
                    assert(line_views(h.lines@) =~= seq![]);
                }
                self.current = Some(h);
                self.old_no = os;
                self.new_no = ns;
            }
        } else if self.current.is_some() && line.len() > 0 {
            let c = line[0];
            if c == '+' {
                let l = new_line("addition", None, Some(self.new_no), line);
                self.push_line(l);
                self.new_no = bump_exec(self.new_no);
                self.additions = bump_exec(self.additions);
            } else if c == '-' {
                let l = new_line("deletion", Some(self.old_no), None, line);
                self.push_line(l);
                self.old_no = bump_exec(self.old_no);
                self.deletions = bump_exec(self.deletions);
            } else if c == ' ' {
                let l = new_line("context", Some(self.old_no), Some(self.new_no), line);
                self.push_line(l);
                self.old_no = bump_exec(self.old_no);
                self.new_no = bump_exec(self.new_no);
            }
        }
    }
}

/// Parses a unified diff of one file, leaving the paths as they stand in
/// the text.
pub fn parse_diff_text(diff_text: &str) -> (r: ParsedDiff)
    ensures
        r@ == diff_model(diff_text@),
{
    let text = chars_of(diff_text);
    let lines = split_lines(&text);
    let ghost ls = lines_of(text@);
    let m = Markers::new();
    let mut st = Scanner::new();
    let mut i: usize = 0;
    while i < lines.len()
        invariant
            m.wf(),
            seqs_of(lines@) == ls,
            i <= lines.len(),
            st@ == scan_lines(ls.take(i as int)),
        decreases lines.len() - i,
    {
        proof {
            assert(ls.take(i + 1).drop_last() =~= ls.take(i as int));
            assert(lines@[i as int]@ == ls[i as int]);
        }
        st.read_line(&lines[i], &m);
        i = i + 1;
    }
    proof {
        assert(ls.take(lines.len() as int) =~= ls);
    }
    let Scanner { file_path, old_path, new_path, is_binary, mut hunks, current, additions, deletions, .. } = st;
    match current {
        Some(h) => {
            proof {
                lemma_hunk_views_push(hunks@, h);
            }
            hunks.push(h);
        },
        None => {},
    }
    ParsedDiff {
        file_path: string_from_chars(file_path.as_slice()),
        old_path: string_from_chars(old_path.as_slice()),
        new_path: string_from_chars(new_path.as_slice()),
        is_binary,
        hunks,
        additions,
        deletions,
    }
}

/// Parses a unified diff of one file into hunks and numbered lines, with the
/// file path, old path and new path in Unicode NFC. It always succeeds:
/// text that is not a diff gives empty paths and no hunks.
pub fn parse_diff(diff_text: String) -> (r: Result<ParsedDiff, String>)
    ensures
        r is Ok,
        r->Ok_0@ == normalized_diff_model(diff_text@),
{
    let raw = parse_diff_text(diff_text.as_str());
    let file_path = normalize_unicode(raw.file_path.as_str());
    let old_path = normalize_unicode(raw.old_path.as_str());
    let new_path = normalize_unicode(raw.new_path.as_str());
    Ok(ParsedDiff { file_path, old_path, new_path, ..raw })
}

} // verus!
