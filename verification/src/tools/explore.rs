//! Read-only tools: `read_file`, `list_directory`, `find_files`, `grep`.
//!
//! Walking directories and searching file contents is the caller's work;
//! what a tool returns from what was read is decided here.

use vstd::prelude::*;
use vstd::string::StringSliceAdditionalSpecFns;

use crate::text::{
    chars_of, decimal, join_range, join_seq, push_decimal, replace_char, replace_char_exec,
    split_chars, split_seq, string_from_chars, trim_chars, trim_seq, views_of,
};
use crate::tools::error::{ToolError, ToolErrorView};

verus! {

/// Maximum bytes `read_file` returns (use `grep` for large or binary files).
pub const MAX_READ_FILE_BYTES: usize = 1048576;

/// Input of `read_file`.
pub struct ReadFileInput {
    pub path: String,
    pub start_line: Option<u64>,
    pub end_line: Option<u64>,
}

/// The lines of `t` as `read_file` numbers them: the pieces between `\n`s;
/// an empty text reads as one empty line.
pub open spec fn file_lines(t: Seq<char>) -> Seq<Seq<char>> {
    if t.len() == 0 {
        seq![Seq::<char>::empty()]
    } else {
        split_seq(t, '\n')
    }
}

/// First line of the requested range (1 when absent or zero).
pub open spec fn range_start(start: Option<u64>) -> nat {
    match start {
        Some(v) => if (v as usize) > 0 { (v as usize) as nat } else { 1 },
        None => 1,
    }
}

/// Last line of the requested range: clamped to the line count (at least
/// one) and to no less than the first line.
pub open spec fn range_end(n_lines: nat, start: Option<u64>, end: Option<u64>) -> nat {
    let n: nat = if n_lines > 1 { n_lines } else { 1 };
    let want: nat = match end {
        Some(v) => (v as usize) as nat,
        None => n,
    };
    let clamped: nat = if want < n { want } else { n };
    let s = range_start(start);
    if clamped > s { clamped } else { s }
}

/// The range lies inside the text's lines.
pub open spec fn range_readable(t: Seq<char>, start: Option<u64>, end: Option<u64>) -> bool {
    range_end(file_lines(t).len(), start, end) <= file_lines(t).len()
}

/// The error for a range that begins after the last line.
pub open spec fn past_end_text() -> Seq<char> {
    "start_line past end of file"@
}

/// What `read_file` returns for a file of text `t` asked for by `raw_path`.
pub open spec fn read_file_text(raw_path: Seq<char>, t: Seq<char>, start: Option<u64>, end: Option<u64>) -> Seq<char> {
    let lines = file_lines(t);
    let s = range_start(start);
    let e = range_end(lines.len(), start, end);
    "<file path=\""@ + replace_char(trim_seq(raw_path), '"', '\'') + "\" lines=\""@ + decimal(s)
        + "-"@ + decimal(e) + "\">\n"@ + join_seq(lines.subrange(s - 1, e as int), '\n')
        + "\n</file>"@
}

/// Read-only access to one file.
pub struct ReadFileTool;

impl ReadFileTool {
    pub fn name(&self) -> (r: &'static str)
        ensures
            r@ == "read_file"@,
    {
        "read_file"
    }

    pub fn description(&self) -> (r: &'static str)
        ensures
            r@ == "Read a UTF-8 text file under the workspace. Optional 1-based inclusive line range. Rejects files larger than 1 MiB (use grep instead)."@,
    {
        "Read a UTF-8 text file under the workspace. Optional 1-based inclusive line range. Rejects files larger than 1 MiB (use grep instead)."
    }

    /// Lines `start..=end` (1-based, clamped) of `text`, with the range
    /// actually returned; an error when the range begins after the last
    /// line.
    pub fn extract(text: &str, start: Option<u64>, end: Option<u64>) -> (r: Result<
        (String, usize, usize),
        ToolError,
    >)
        ensures
            ({
                let lines = file_lines(text@);
                let s = range_start(start);
                let e = range_end(lines.len(), start, end);
                if range_readable(text@, start, end) {
                    &&& r is Ok
                    &&& r->Ok_0.1 == s
                    &&& r->Ok_0.2 == e
                    &&& r->Ok_0.0@ == join_seq(lines.subrange(s - 1, e as int), '\n')
                } else {
                    r is Err && r->Err_0@ == ToolErrorView::Message(past_end_text())
                }
            }),
    {
        let cs = chars_of(text);
        let lines: Vec<Vec<char>> = if text.is_empty() {
            let mut one: Vec<Vec<char>> = Vec::new();
            one.push(Vec::new());
            one
        } else {
            split_chars(cs.as_slice(), '\n')
        };
        proof {
            assert(views_of(lines@) =~= file_lines(text@));
        }
        let n = lines.len();
        let s: usize = match start {
            Some(v) => if (v as usize) > 0 {
                v as usize
            } else {
                1
            },
            None => 1,
        };
        let want: usize = match end {
            Some(v) => v as usize,
            None => n,
        };
        let clamped = if want < n {
            want
        } else {
            n
        };
        let e = if clamped > s {
            clamped
        } else {
            s
        };
        if e > lines.len() {
            return Err(ToolError::msg("start_line past end of file".to_owned()));
        }
        let body = join_range(&lines, s - 1, e, '\n');
        Ok((string_from_chars(body.as_slice()), s, e))
    }

    /// Runs the tool on `full`, the text of the file at `path`.
    pub fn invoke(&self, p: ReadFileInput, path: String, full: &str) -> (r: Result<String, ToolError>)
        ensures
            MAX_READ_FILE_BYTES < full.spec_bytes().len() ==> r is Err && r->Err_0@
                == (ToolErrorView::FileTooLarge { path: path@, max: MAX_READ_FILE_BYTES }),
            (full.spec_bytes().len() <= MAX_READ_FILE_BYTES && !range_readable(full@, p.start_line, p.end_line))
                ==> r is Err && r->Err_0@ == ToolErrorView::Message(past_end_text()),
            (full.spec_bytes().len() <= MAX_READ_FILE_BYTES && range_readable(full@, p.start_line, p.end_line))
                ==> r is Ok && r->Ok_0@ == read_file_text(
                p.path@,
                full@,
                p.start_line,
                p.end_line,
            ),
    {
        let too_large = MAX_READ_FILE_BYTES < full.as_bytes().len();
        if too_large {
            let e = ToolError::FileTooLarge { path, max: MAX_READ_FILE_BYTES };
            return Err(e);
        }
        let (body, a, b) = Self::extract(full, p.start_line, p.end_line)?;
        let pc = chars_of(p.path.as_str());
        let rel = trim_chars(&pc);
        let quoted = replace_char_exec(&rel, '"', '\'');
        let mut out = "<file path=\"".to_owned();
        out.append(string_from_chars(quoted.as_slice()).as_str());
        out.append("\" lines=\"");
        push_decimal(&mut out, a as u64);
        out.append("-");
        push_decimal(&mut out, b as u64);
        out.append("\">\n");
        out.append(body.as_str());
        out.append("\n</file>");
        Ok(out)
    }
}

/// Input of `list_directory`.
pub struct ListDirectoryInput {
    pub path: String,
    pub recursive: bool,
    pub max_depth: Option<u32>,
}

/// Input of `find_files`.
pub struct FindFilesInput {
    pub pattern: String,
}

/// Input of `grep`.
pub struct GrepInput {
    pub query: String,
    pub is_regex: bool,
    pub case_sensitive: bool,
    pub path: Option<String>,
}

/// Default of `GrepInput::case_sensitive` when the caller leaves it out.
pub fn default_true() -> (r: bool)
    ensures
        r,
{
    true
}

#[verifier::external_type_specification]
#[verifier::external_body]
pub struct ExGlob(globset::Glob);

#[verifier::external_type_specification]
#[verifier::external_body]
pub struct ExGlobSet(globset::GlobSet);

/// The text of the error that `globset::GlobBuilder::build` gives for a
/// pattern, or `None` when the pattern parses.
pub uninterp spec fn glob_error_of(pattern: Seq<char>) -> Option<Seq<char>>;

/// The text of the error that building a `globset::GlobSet` of the one glob
/// parsed from `pattern` gives, or `None` when it builds.
pub uninterp spec fn glob_set_error_of(pattern: Seq<char>) -> Option<Seq<char>>;

/// Whether `globset::GlobSet::is_match` holds for `path` on the set of the
/// one glob parsed from `pattern`.
pub uninterp spec fn glob_set_match_of(pattern: Seq<char>, path: Seq<char>) -> bool;

/// A parsed glob, with the pattern it was parsed from.
pub struct PatternGlob {
    glob: globset::Glob,
    pattern: String,
}

/// A glob set of one glob, with the pattern of that glob.
pub struct PatternSet {
    set: globset::GlobSet,
    pattern: String,
}

/// `globset::GlobBuilder::new(pattern).build()`, its error as text. The
/// contract claims that the outcome is a function of the pattern.
#[verifier::external_body]
fn glob_build(pattern: &str) -> (r: Result<PatternGlob, String>)
    ensures
        match r {
            Ok(g) => g.pattern@ == pattern@ && glob_error_of(pattern@) is None,
            Err(e) => glob_error_of(pattern@) == Some(e@),
        },
{
    match globset::GlobBuilder::new(pattern).build() {
        Ok(glob) => Ok(PatternGlob { glob, pattern: pattern.to_owned() }),
        Err(e) => Err(e.to_string()),
    }
}

/// `GlobSetBuilder::build` after adding the one glob `g`, its error as
/// text. The contract claims that the outcome is a function of the pattern
/// the glob was parsed from.
#[verifier::external_body]
fn glob_set_build(g: PatternGlob) -> (r: Result<PatternSet, String>)
    ensures
        match r {
            Ok(s) => s.pattern@ == g.pattern@ && glob_set_error_of(g.pattern@) is None,
            Err(e) => glob_set_error_of(g.pattern@) == Some(e@),
        },
{
    let mut b = globset::GlobSetBuilder::new();
    b.add(g.glob);
    match b.build() {
        Ok(set) => Ok(PatternSet { set, pattern: g.pattern }),
        Err(e) => Err(e.to_string()),
    }
}

/// `GlobSet::is_match` on a path. The contract claims that the answer is a
/// function of the set's pattern and the path.
#[verifier::external_body]
fn glob_set_is_match(s: &PatternSet, path: &str) -> (r: bool)
    ensures
        r == glob_set_match_of(s.pattern@, path@),
{
    s.set.is_match(path)
}

/// Most paths that `find_files` returns.
pub const FIND_FILES_CAP: usize = 500;

/// The paths of `cands` that the pattern's glob set matches, in order.
pub open spec fn matching_paths(pattern: Seq<char>, cands: Seq<Seq<char>>) -> Seq<Seq<char>>
    decreases cands.len(),
{
    if cands.len() == 0 {
        Seq::empty()
    } else {
        let rest = matching_paths(pattern, cands.drop_last());
        if glob_set_match_of(pattern, cands.last()) {
            rest.push(cands.last())
        } else {
            rest
        }
    }
}

/// What `find_files` answers for a pattern and the workspace-relative paths
/// of the files found, in the order found: the first 500 matches.
pub open spec fn find_files_result(pattern: Seq<char>, cands: Seq<Seq<char>>) -> Result<Seq<Seq<char>>, ToolErrorView> {
    match glob_error_of(pattern) {
        Some(e) => Err(ToolErrorView::Message("invalid glob: "@ + e)),
        None => match glob_set_error_of(pattern) {
            Some(e) => Err(ToolErrorView::Message("invalid glob set: "@ + e)),
            None => {
                let m = matching_paths(pattern, cands);
                Ok(if m.len() > FIND_FILES_CAP { m.subrange(0, FIND_FILES_CAP as int) } else { m })
            },
        },
    }
}

fn prefixed_error(prefix: &str, e: String) -> (r: ToolError)
    ensures
        r@ == ToolErrorView::Message(prefix@ + e@),
{
    let mut s = prefix.to_owned();
    s.append(e.as_str());
    ToolError::msg(s)
}

/// Files matching a glob pattern.
pub struct FindFilesTool;

impl FindFilesTool {
    pub fn name(&self) -> (r: &'static str)
        ensures
            r@ == "find_files"@,
    {
        "find_files"
    }

    pub fn description(&self) -> (r: &'static str)
        ensures
            r@ == "Find files matching a glob pattern, respecting gitignore (max 500 results)."@,
    {
        "Find files matching a glob pattern, respecting gitignore (max 500 results)."
    }

    /// Runs the tool on `candidates`, the workspace-relative paths of the
    /// files that the (ignore-aware) walk of the workspace found, in order:
    /// the summary line and the matching paths.
    pub fn invoke(&self, p: FindFilesInput, candidates: Vec<String>) -> (r: Result<(String, Vec<String>), ToolError>)
        ensures
            match find_files_result(p.pattern@, crate::order::str_views(candidates@)) {
                Err(ev) => r is Err && r->Err_0@ == ev,
                Ok(m) => r is Ok && crate::order::str_views(r->Ok_0.1@) == m && r->Ok_0.0@ == decimal(
                    m.len(),
                ) + " matches (cap 500)"@,
            },
    {
        let g = match glob_build(p.pattern.as_str()) {
            Ok(g) => g,
            Err(e) => return Err(prefixed_error("invalid glob: ", e)),
        };
        let set = match glob_set_build(g) {
            Ok(s) => s,
            Err(e) => return Err(prefixed_error("invalid glob set: ", e)),
        };
        let ghost pat = p.pattern@;
        let ghost cv = crate::order::str_views(candidates@);
        let mut out: Vec<String> = Vec::new();
        let mut i: usize = 0;
        while i < candidates.len() && out.len() < FIND_FILES_CAP
            invariant
                0 <= i <= candidates@.len(),
                set.pattern@ == pat,
                cv == crate::order::str_views(candidates@),
                crate::order::str_views(out@) == matching_paths(pat, cv.subrange(0, i as int)),
                out@.len() <= FIND_FILES_CAP,
            decreases candidates@.len() - i,
        {
            let ghost pre = cv.subrange(0, i as int);
            assert(cv.subrange(0, i + 1).drop_last() =~= pre);
            assert(cv.subrange(0, i + 1).last() == candidates@[i as int]@);
            if glob_set_is_match(&set, candidates[i].as_str()) {
                out.push(candidates[i].clone());
                assert(crate::order::str_views(out@) =~= matching_paths(pat, pre).push(candidates@[i as int]@));
            }
            i = i + 1;
        }
        proof {
            lemma_matching_prefix(pat, cv, i as int);
            if i == candidates@.len() {
                assert(cv.subrange(0, i as int) =~= cv);
            }
        }
        let mut summary = String::new();
        push_decimal(&mut summary, out.len() as u64);
        summary.append(" matches (cap 500)");
        Ok((summary, out))
    }
}

/// The matches among a prefix of the candidates are a prefix of all
/// matches; once the cap is reached, they are the first 500.
proof fn lemma_matching_prefix(pat: Seq<char>, cv: Seq<Seq<char>>, i: int)
    requires
        0 <= i <= cv.len(),
        matching_paths(pat, cv.subrange(0, i)).len() <= FIND_FILES_CAP,
        i < cv.len() ==> matching_paths(pat, cv.subrange(0, i)).len() == FIND_FILES_CAP,
    ensures
        ({
            let m = matching_paths(pat, cv);
            let cut = if m.len() > FIND_FILES_CAP { m.subrange(0, FIND_FILES_CAP as int) } else { m };
            cut == matching_paths(pat, cv.subrange(0, i))
        }),
    decreases cv.len() - i,
{
    assert(cv.subrange(0, cv.len() as int) =~= cv);
    let m = matching_paths(pat, cv);
    let a = matching_paths(pat, cv.subrange(0, i));
    if i == cv.len() {
        assert(cv.subrange(0, i) =~= cv);
        assert(a == m);
    } else {
        lemma_matching_extends(pat, cv, i, cv.len() as int);
        assert(a.len() == FIND_FILES_CAP);
        assert(m.subrange(0, a.len() as int) == a);
        if m.len() == FIND_FILES_CAP {
            assert(m.subrange(0, a.len() as int) =~= m);
        }
    }
}

/// The matches of a longer prefix extend those of a shorter one.
proof fn lemma_matching_extends(pat: Seq<char>, cv: Seq<Seq<char>>, i: int, j: int)
    requires
        0 <= i <= j <= cv.len(),
    ensures
        matching_paths(pat, cv.subrange(0, i)).len() <= matching_paths(pat, cv.subrange(0, j)).len(),
        matching_paths(pat, cv.subrange(0, j)).subrange(0, matching_paths(pat, cv.subrange(0, i)).len() as int)
            == matching_paths(pat, cv.subrange(0, i)),
    decreases j - i,
{
    if i == j {
        let a = matching_paths(pat, cv.subrange(0, i));
        assert(a.subrange(0, a.len() as int) =~= a);
    } else {
        lemma_matching_extends(pat, cv, i, j - 1);
        assert(cv.subrange(0, j).drop_last() =~= cv.subrange(0, j - 1));
        let a = matching_paths(pat, cv.subrange(0, i));
        let b = matching_paths(pat, cv.subrange(0, j - 1));
        let c = matching_paths(pat, cv.subrange(0, j));
        assert(c.subrange(0, a.len() as int) =~= b.subrange(0, a.len() as int));
    }
}

/// Reading a file without a range returns all of it: lines `1..=n` of its
/// `n` lines, which join back into exactly the file's text.
pub proof fn law_read_whole_file(t: Seq<char>)
    ensures
        range_start(None) == 1,
        range_end(file_lines(t).len(), None, None) == file_lines(t).len(),
        range_readable(t, None, None),
        join_seq(file_lines(t).subrange(0, file_lines(t).len() as int), '\n') == t,
{
    let lines = file_lines(t);
    assert(lines.subrange(0, lines.len() as int) =~= lines);
    if t.len() == 0 {
        assert(join_seq(lines, '\n') == Seq::<char>::empty());
        assert(t =~= Seq::<char>::empty());
    } else {
        crate::text::law_join_undoes_split(t, '\n');
        crate::text::lemma_split_from_nonempty(t, '\n', 0, Seq::empty());
    }
}

} // verus!

verus! {

/// One entry that the walk under a listed directory produced.
#[derive(Debug)]
pub struct WalkEntry {
    pub path: String,
    /// The entry's file name, empty where its path has none.
    pub name: String,
    pub is_dir: bool,
    /// The workspace's ignore rules exclude it.
    pub ignored: bool,
    /// Its length, where its metadata could be read.
    pub size: Option<u64>,
}

/// One row of what `list_directory` answers.
#[derive(Debug)]
pub struct DirRow {
    pub name: String,
    pub path: String,
    /// `"directory"` or `"file"`.
    pub kind: String,
    pub size: u64,
}

/// A walked entry that the listing of `dir` shows: not `dir` itself (as paths
/// compare), and not ignored.
pub open spec fn listed(dir: Seq<char>, e: WalkEntry) -> bool {
    !crate::editor::session::same_path(e.path@, dir) && !e.ignored
}

pub open spec fn row_of(e: WalkEntry) -> (Seq<char>, Seq<char>, Seq<char>, u64) {
    (
        e.name@,
        e.path@,
        if e.is_dir { "directory"@ } else { "file"@ },
        if e.is_dir { 0 } else { match e.size { Some(n) => n, None => 0 } },
    )
}

/// The rows of the listing of `dir`, in walk order.
pub open spec fn listing(dir: Seq<char>, es: Seq<WalkEntry>) -> Seq<(Seq<char>, Seq<char>, Seq<char>, u64)>
    decreases es.len(),
{
    if es.len() == 0 {
        Seq::empty()
    } else {
        let rest = listing(dir, es.drop_last());
        if listed(dir, es.last()) { rest.push(row_of(es.last())) } else { rest }
    }
}

pub open spec fn dir_rows_view(rs: Seq<DirRow>) -> Seq<(Seq<char>, Seq<char>, Seq<char>, u64)> {
    rs.map_values(|r: DirRow| (r.name@, r.path@, r.kind@, r.size))
}

/// Directory listing under a workspace path.
pub struct ListDirectoryTool;

impl ListDirectoryTool {
    pub fn name(&self) -> (r: &'static str)
        ensures
            r@ == "list_directory"@,
    {
        "list_directory"
    }

    pub fn description(&self) -> (r: &'static str)
        ensures
            r@ == "List files and directories under a workspace-relative path (gitignore-aware)."@,
    {
        "List files and directories under a workspace-relative path (gitignore-aware)."
    }

    /// How deep the walk goes below the listed directory: one level unless
    /// recursive, else one more than `max_depth` (saturating), or unbounded.
    pub fn walk_depth(&self, p: &ListDirectoryInput) -> (r: Option<usize>)
        ensures
            !p.recursive ==> r == Some(1usize),
            p.recursive ==> match p.max_depth {
                Some(md) => r == Some(
                    (if md == u32::MAX { u32::MAX as int } else { md + 1 }) as usize,
                ),
                None => r is None,
            },
    {
        if !p.recursive {
            Some(1)
        } else {
            match p.max_depth {
                Some(md) => Some(md.saturating_add(1) as usize),
                None => None,
            }
        }
    }

    /// Runs the tool on the resolved directory `dir`, whether it is a
    /// directory, and the entries its walk produced: the summary line and
    /// the rows.
    pub fn invoke(&self, dir: String, dir_is_dir: bool, entries: Vec<WalkEntry>) -> (r: Result<
        (String, Vec<DirRow>),
        ToolError,
    >)
        ensures
            !dir_is_dir ==> r is Err && r->Err_0@ == ToolErrorView::Message(
                "not a directory: "@ + dir@,
            ),
            dir_is_dir ==> r is Ok && dir_rows_view(r->Ok_0.1@) == listing(dir@, entries@)
                && r->Ok_0.0@ == decimal(listing(dir@, entries@).len()) + " entries"@,
    {
        if !dir_is_dir {
            return Err(prefixed_error("not a directory: ", dir));
        }
        let mut rows: Vec<DirRow> = Vec::new();
        let mut i: usize = 0;
        while i < entries.len()
            invariant
                0 <= i <= entries@.len(),
                dir_rows_view(rows@) == listing(dir@, entries@.subrange(0, i as int)),
            decreases entries@.len() - i,
        {
            let ghost pre = entries@.subrange(0, i as int);
            assert(entries@.subrange(0, i + 1).drop_last() =~= pre);
            let e = &entries[i];
            if !crate::editor::session::paths_equal(e.path.as_str(), dir.as_str()) && !e.ignored {
                let (kind, size) = if e.is_dir {
                    ("directory".to_owned(), 0u64)
                } else {
                    (
                        "file".to_owned(),
                        match e.size {
                            Some(n) => n,
                            None => 0,
                        },
                    )
                };
                rows.push(DirRow { name: e.name.clone(), path: e.path.clone(), kind, size });
                assert(dir_rows_view(rows@) =~= listing(dir@, pre).push(row_of(entries@[i as int])));
            } else {
                assert(dir_rows_view(rows@) =~= listing(dir@, pre));
            }
            i = i + 1;
        }
        assert(entries@.subrange(0, entries@.len() as int) =~= entries@);
        let mut summary = String::new();
        push_decimal(&mut summary, rows.len() as u64);
        summary.append(" entries");
        Ok((summary, rows))
    }
}

} // verus!

verus! {

/// One match that the project search reported (0-based line and column).
#[derive(Debug)]
pub struct SearchHit {
    pub path: String,
    pub line: usize,
    pub col_start: usize,
    pub line_content: String,
}

/// What the project search reports, in the order it reports it.
#[derive(Debug)]
pub enum SearchEvent {
    Match(SearchHit),
    Progress,
    Done,
    Error(String),
}

/// One row of what `grep` answers (1-based line and column).
#[derive(Debug)]
pub struct GrepRow {
    pub path: String,
    pub line: usize,
    pub column: usize,
    pub content: String,
}

/// The search is over once it reports `Done` or an error.
pub open spec fn is_stop(e: SearchEvent) -> bool {
    e is Done || e is Error
}

/// How many events come before the first that ends the search.
pub open spec fn first_stop(evs: Seq<SearchEvent>) -> nat
    decreases evs.len(),
{
    if evs.len() == 0 || is_stop(evs[0]) {
        0
    } else {
        1 + first_stop(evs.drop_first())
    }
}

/// A match inside the requested path (every match when none was given).
pub open spec fn in_scope(prefix: Option<Seq<char>>, h: SearchHit) -> bool {
    match prefix {
        Some(p) => crate::text::seq_starts_with(
            crate::editor::git_paths::path_components(h.path@),
            crate::editor::git_paths::path_components(p),
        ),
        None => true,
    }
}

pub open spec fn grep_row_of(h: SearchHit) -> (Seq<char>, int, int, Seq<char>) {
    (h.path@, h.line + 1, h.col_start + 1, h.line_content@)
}

/// The rows for the matches among `evs` that lie in scope, in order.
pub open spec fn grep_rows(prefix: Option<Seq<char>>, evs: Seq<SearchEvent>) -> Seq<(Seq<char>, int, int, Seq<char>)>
    decreases evs.len(),
{
    if evs.len() == 0 {
        Seq::empty()
    } else {
        let rest = grep_rows(prefix, evs.drop_last());
        match evs.last() {
            SearchEvent::Match(h) => if in_scope(prefix, h) { rest.push(grep_row_of(h)) } else { rest },
            _ => rest,
        }
    }
}

/// What `grep` answers for the reported events: the rows of the matches
/// before the search ended, or the error that ended it.
pub open spec fn grep_outcome(prefix: Option<Seq<char>>, evs: Seq<SearchEvent>) -> Result<
    Seq<(Seq<char>, int, int, Seq<char>)>,
    Seq<char>,
> {
    let k = first_stop(evs);
    if k < evs.len() && evs[k as int] is Error {
        Err(evs[k as int]->Error_0@)
    } else {
        Ok(grep_rows(prefix, evs.subrange(0, k as int)))
    }
}

pub open spec fn grep_rows_view(rs: Seq<GrepRow>) -> Seq<(Seq<char>, int, int, Seq<char>)> {
    rs.map_values(|r: GrepRow| (r.path@, r.line as int, r.column as int, r.content@))
}

/// Every reported match has a line and a column that can be counted from 1.
pub open spec fn hits_fit(evs: Seq<SearchEvent>) -> bool {
    forall|j: int|
        0 <= j < evs.len() ==> match #[trigger] evs[j] {
            SearchEvent::Match(h) => h.line < usize::MAX && h.col_start < usize::MAX,
            _ => true,
        }
}

proof fn lemma_first_stop(evs: Seq<SearchEvent>, i: int)
    requires
        0 <= i <= evs.len(),
        forall|j: int| 0 <= j < i ==> !is_stop(#[trigger] evs[j]),
        i < evs.len() ==> is_stop(evs[i]),
    ensures
        first_stop(evs) == i,
    decreases i,
{
    if i > 0 {
        let t = evs.drop_first();
        assert forall|j: int| 0 <= j < i - 1 implies !is_stop(#[trigger] t[j]) by {
            assert(t[j] == evs[j + 1]);
        }
        assert(!is_stop(evs[0]));
        lemma_first_stop(t, i - 1);
    }
}

/// Content search over the workspace.
pub struct GrepTool;

impl GrepTool {
    pub fn name(&self) -> (r: &'static str)
        ensures
            r@ == "grep"@,
    {
        "grep"
    }

    pub fn description(&self) -> (r: &'static str)
        ensures
            r@ == "Search file contents in the workspace (dirty buffers override disk)."@,
    {
        "Search file contents in the workspace (dirty buffers override disk)."
    }

    /// Runs the tool on what the project search reported, `path_prefix`
    /// being the resolved path the caller asked to search under.
    pub fn invoke(&self, path_prefix: Option<String>, events: Vec<SearchEvent>) -> (r: Result<
        (String, Vec<GrepRow>),
        ToolError,
    >)
        requires
            hits_fit(events@),
        ensures
            ({
                match grep_outcome(crate::tools::transaction::opt_text(path_prefix), events@) {
                    Ok(rows) => r is Ok && grep_rows_view(r->Ok_0.1@) == rows && r->Ok_0.0@ == decimal(
                        rows.len(),
                    ) + " matches"@,
                    Err(e) => r is Err && r->Err_0@ == ToolErrorView::Search(e),
                }
            }),
    {
        let ghost pre = crate::tools::transaction::opt_text(path_prefix);
        let mut rows: Vec<GrepRow> = Vec::new();
        let mut i: usize = 0;
        while i < events.len()
            invariant
                0 <= i <= events@.len(),
                hits_fit(events@),
                pre == crate::tools::transaction::opt_text(path_prefix),
                forall|j: int| 0 <= j < i ==> !is_stop(#[trigger] events@[j]),
                grep_rows_view(rows@) == grep_rows(pre, events@.subrange(0, i as int)),
            ensures
                0 <= i <= events@.len(),
                forall|j: int| 0 <= j < i ==> !is_stop(#[trigger] events@[j]),
                grep_rows_view(rows@) == grep_rows(pre, events@.subrange(0, i as int)),
                i < events@.len() ==> events@[i as int] is Done,
            decreases events@.len() - i,
        {
            let ghost sub = events@.subrange(0, i as int);
            assert(events@.subrange(0, i + 1).drop_last() =~= sub);
            match &events[i] {
                SearchEvent::Done => {
                    break;
                },
                SearchEvent::Error(e) => {
                    proof {
                        lemma_first_stop(events@, i as int);
                    }
                    return Err(ToolError::Search(e.clone()));
                },
                SearchEvent::Progress => {
                    assert(grep_rows_view(rows@) =~= grep_rows(pre, events@.subrange(0, i + 1)));
                },
                SearchEvent::Match(h) => {
                    assert(events@[i as int] matches SearchEvent::Match(_));
                    let keep = match &path_prefix {
                        Some(p) => crate::tools::path::path_starts_with(h.path.as_str(), p.as_str()),
                        None => true,
                    };
                    if keep {
                        rows.push(
                            GrepRow {
                                path: h.path.clone(),
                                line: h.line + 1,
                                column: h.col_start + 1,
                                content: h.line_content.clone(),
                            },
                        );
                    }
                    assert(grep_rows_view(rows@) =~= grep_rows(pre, events@.subrange(0, i + 1)));
                },
            }
            i = i + 1;
        }
        proof {
            lemma_first_stop(events@, i as int);
        }
        let mut summary = String::new();
        push_decimal(&mut summary, rows.len() as u64);
        summary.append(" matches");
        Ok((summary, rows))
    }
}

} // verus!
