//! The editor's own file tools, which write straight to disk: what
//! `edit_lines`, `insert_at` and `replace_in_file` make of a file's text,
//! and which tool a call names. Reading and writing the files is the
//! caller's work.

use vstd::prelude::*;

use crate::provider::types::str_eq;
use crate::search::{match_positions, occurs_at};
use crate::text::{
    chars_of, decimal, extend_from, join_range, join_seq, push_decimal, split_chars, split_seq,
    string_from_chars, sub_vec, views_of,
};

verus! {

/// `s` without one trailing `\r`.
pub open spec fn strip_cr(s: Seq<char>) -> Seq<char> {
    if s.len() > 0 && s.last() == '\r' {
        s.drop_last()
    } else {
        s
    }
}

/// The lines of `s` as `str::lines` gives them: split at `\n`, a `\r`
/// before a `\n` dropped, and no empty last line after a final `\n`.
pub open spec fn std_lines(s: Seq<char>) -> Seq<Seq<char>> {
    let parts = split_seq(s, '\n');
    let k = parts.len() - 1;
    parts.subrange(0, k).map_values(|p: Seq<char>| strip_cr(p)) + if parts[k].len() > 0 {
        seq![parts[k]]
    } else {
        Seq::<Seq<char>>::empty()
    }
}

proof fn lemma_split_nonempty(s: Seq<char>)
    ensures
        split_seq(s, '\n').len() >= 1,
{
    lemma_split_from_nonempty(s, 0, Seq::empty());
}

proof fn lemma_split_from_nonempty(s: Seq<char>, i: int, cur: Seq<char>)
    ensures
        crate::text::split_from(s, '\n', i, cur).len() >= 1,
    decreases s.len() - i,
{
    if i < s.len() {
        if s[i] == '\n' {
            lemma_split_from_nonempty(s, i + 1, Seq::empty());
        } else {
            lemma_split_from_nonempty(s, i + 1, cur.push(s[i]));
        }
    }
}

fn strip_cr_exec(v: &Vec<char>) -> (r: Vec<char>)
    ensures
        r@ == strip_cr(v@),
{
    if v.len() > 0 && v[v.len() - 1] == '\r' {
        sub_vec(v, 0, v.len() - 1)
    } else {
        sub_vec(v, 0, v.len())
    }
}

/// The lines of `s` (see [`std_lines`]).
pub fn lines_of(s: &str) -> (r: Vec<Vec<char>>)
    ensures
        views_of(r@) == std_lines(s@),
{
    let cs = chars_of(s);
    let parts = split_chars(cs.as_slice(), '\n');
    let ghost pv = views_of(parts@);
    assert(pv == split_seq(s@, '\n'));
    proof {
        lemma_split_nonempty(s@);
    }
    let k = parts.len() - 1;
    let mut out: Vec<Vec<char>> = Vec::new();
    let mut i: usize = 0;
    while i < k
        invariant
            0 <= i <= k,
            k == parts@.len() - 1,
            pv == views_of(parts@),
            views_of(out@) == pv.subrange(0, i as int).map_values(|p: Seq<char>| strip_cr(p)),
        decreases k - i,
    {
        let ghost pre = views_of(out@);
        out.push(strip_cr_exec(&parts[i]));
        assert(views_of(out@) =~= pre.push(strip_cr(pv[i as int])));
        assert(pv.subrange(0, i + 1).map_values(|p: Seq<char>| strip_cr(p)) =~= pv.subrange(
            0,
            i as int,
        ).map_values(|p: Seq<char>| strip_cr(p)).push(strip_cr(pv[i as int])));
        i = i + 1;
    }
    let ghost mid = views_of(out@);
    if parts[k].len() > 0 {
        out.push(crate::text::copy_chars(&parts[k]));
        assert(views_of(out@) =~= mid + seq![pv[k as int]]);
    } else {
        assert(mid + Seq::<Seq<char>>::empty() =~= mid);
    }
    out
}

/// Copies of `v[from..to]`.
fn copy_lines(dst: &mut Vec<Vec<char>>, v: &Vec<Vec<char>>, from: usize, to: usize)
    requires
        from <= to <= v@.len(),
    ensures
        views_of(final(dst)@) == views_of(old(dst)@) + views_of(v@).subrange(from as int, to as int),
{
    let mut i = from;
    while i < to
        invariant
            from <= i <= to <= v@.len(),
            views_of(dst@) == views_of(old(dst)@) + views_of(v@).subrange(from as int, i as int),
        decreases to - i,
    {
        let ghost pre = views_of(dst@);
        dst.push(crate::text::copy_chars(&v[i]));
        assert(views_of(dst@) =~= pre.push(views_of(v@)[i as int]));
        assert(views_of(old(dst)@) + views_of(v@).subrange(from as int, i + 1) =~= (views_of(old(dst)@)
            + views_of(v@).subrange(from as int, i as int)).push(views_of(v@)[i as int]));
        i = i + 1;
    }
}

/// The line range an `edit_lines` call asks for, as `(start, end)` 1-based
/// and inclusive, or the message for a bad range.
pub open spec fn edit_range(start: Option<u64>, end: Option<u64>) -> Result<(usize, usize), Seq<char>> {
    match start {
        Some(s) if s >= 1 => match end {
            Some(e) if e >= s => Ok((s as usize, e as usize)),
            _ => Err("'end_line' must be >= start_line"@),
        },
        _ => Err("'start_line' must be a positive integer"@),
    }
}

pub fn edit_lines_range(start: Option<u64>, end: Option<u64>) -> (r: Result<(usize, usize), String>)
    ensures
        match edit_range(start, end) {
            Ok(p) => r is Ok && r->Ok_0 == p,
            Err(m) => r is Err && r->Err_0@ == m,
        },
{
    match start {
        Some(s) => if s >= 1 {
            match end {
                Some(e) => if e >= s {
                    return Ok((s as usize, e as usize));
                },
                None => {},
            }
            return Err("'end_line' must be >= start_line".to_owned());
        },
        None => {},
    }
    Err("'start_line' must be a positive integer".to_owned())
}

/// A final newline is kept after the joined lines.
pub open spec fn with_final_newline(original: Seq<char>, body: Seq<char>) -> Seq<char> {
    if original.len() > 0 && original.last() == '\n' {
        body.push('\n')
    } else {
        body
    }
}

/// The file text after replacing lines `start..=end` (1-based) with the
/// lines of `new_content`, or the message when `end` is past the last line.
pub open spec fn edited_lines_text(content: Seq<char>, start: usize, end: usize, new_content: Seq<char>) -> Result<Seq<char>, Seq<char>> {
    let lines = std_lines(content);
    if end > lines.len() {
        Err("end_line "@ + decimal(end as nat) + " > file length "@ + decimal(lines.len()))
    } else {
        Ok(with_final_newline(
            content,
            join_seq(
                lines.subrange(0, start - 1) + std_lines(new_content) + lines.subrange(
                    end as int,
                    lines.len() as int,
                ),
                '\n',
            ),
        ))
    }
}

fn finish_text(content: &str, joined: Vec<char>) -> (r: String)
    ensures
        r@ == with_final_newline(content@, joined@),
{
    let cs = chars_of(content);
    let mut j = joined;
    if cs.len() > 0 && cs[cs.len() - 1] == '\n' {
        j.push('\n');
    }
    string_from_chars(j.as_slice())
}

/// `edit_lines` on the text of a file.
pub fn edit_lines_in_text(content: &str, start: usize, end: usize, new_content: &str) -> (r: Result<String, String>)
    requires
        1 <= start <= end,
    ensures
        match edited_lines_text(content@, start, end, new_content@) {
            Ok(t) => r is Ok && r->Ok_0@ == t,
            Err(m) => r is Err && r->Err_0@ == m,
        },
{
    let lines = lines_of(content);
    if end > lines.len() {
        let mut m = "end_line ".to_owned();
        push_decimal(&mut m, end as u64);
        m.append(" > file length ");
        push_decimal(&mut m, lines.len() as u64);
        assert(views_of(lines@).len() == lines@.len());
        return Err(m);
    }
    let new_lines = lines_of(new_content);
    let mut all: Vec<Vec<char>> = Vec::new();
    copy_lines(&mut all, &lines, 0, start - 1);
    copy_lines(&mut all, &new_lines, 0, new_lines.len());
    copy_lines(&mut all, &lines, end, lines.len());
    proof {
        assert(views_of(new_lines@).subrange(0, new_lines@.len() as int) =~= views_of(new_lines@));
        assert(Seq::<Seq<char>>::empty() + views_of(lines@).subrange(0, start - 1) =~= views_of(lines@).subrange(0, start - 1));
    }
    let joined = join_range(&all, 0, all.len(), '\n');
    assert(views_of(all@).subrange(0, all@.len() as int) =~= views_of(all@));
    Ok(finish_text(content, joined))
}

/// The file text after inserting the lines of `text` before 1-based line
/// `line` (after the last line when `line` is past it), and how many lines
/// were inserted.
pub open spec fn inserted_lines_text(content: Seq<char>, line: usize, text: Seq<char>) -> (Seq<char>, nat) {
    let lines = std_lines(content);
    let at: int = if line - 1 < lines.len() { line - 1 } else { lines.len() as int };
    (
        with_final_newline(
            content,
            join_seq(
                lines.subrange(0, at) + std_lines(text) + lines.subrange(at, lines.len() as int),
                '\n',
            ),
        ),
        std_lines(text).len(),
    )
}

/// `insert_at` on the text of a file.
pub fn insert_lines_in_text(content: &str, line: usize, text: &str) -> (r: (String, usize))
    requires
        line >= 1,
    ensures
        r.0@ == inserted_lines_text(content@, line, text@).0,
        r.1 == inserted_lines_text(content@, line, text@).1,
{
    let lines = lines_of(content);
    let new_lines = lines_of(text);
    let at = if line - 1 < lines.len() {
        line - 1
    } else {
        lines.len()
    };
    let mut all: Vec<Vec<char>> = Vec::new();
    copy_lines(&mut all, &lines, 0, at);
    copy_lines(&mut all, &new_lines, 0, new_lines.len());
    copy_lines(&mut all, &lines, at, lines.len());
    proof {
        assert(views_of(new_lines@).subrange(0, new_lines@.len() as int) =~= views_of(new_lines@));
        assert(Seq::<Seq<char>>::empty() + views_of(lines@).subrange(0, at as int) =~= views_of(lines@).subrange(0, at as int));
    }
    let joined = join_range(&all, 0, all.len(), '\n');
    assert(views_of(all@).subrange(0, all@.len() as int) =~= views_of(all@));
    assert(views_of(new_lines@).len() == new_lines@.len());
    (finish_text(content, joined), new_lines.len())
}

} // verus!

verus! {

/// `h` with `r` before, between and after all of its characters (what
/// replacing every match of an empty pattern gives).
pub open spec fn interleave(h: Seq<char>, r: Seq<char>) -> Seq<char>
    decreases h.len(),
{
    if h.len() == 0 {
        r
    } else {
        interleave(h.drop_last(), r).push(h.last()) + r
    }
}

/// Whether `n` occurs in `h` (the empty text always does).
pub open spec fn contains_text(h: Seq<char>, n: Seq<char>) -> bool {
    n.len() == 0 || exists|i: int| occurs_at(h, n, i)
}

/// Why a direct `replace_in_file` left the text alone.
pub enum ReplaceFailure {
    /// The old text does not occur.
    NotFound,
    /// There are only `found` occurrences, fewer than asked for.
    MissingOccurrence { found: usize },
}

/// The text after replacing occurrence `k` (1-based; 0 for all) of `n` by
/// `r` in `h`.
pub open spec fn replaced_occurrence(h: Seq<char>, n: Seq<char>, r: Seq<char>, k: usize) -> Result<Seq<char>, Option<nat>> {
    if !contains_text(h, n) {
        Err(None)
    } else if k == 0 {
        Ok(if n.len() == 0 { interleave(h, r) } else { crate::search::replace_all(h, n, r) })
    } else if n.len() == 0 {
        Ok(r + h)
    } else {
        let m = match_positions(h, n);
        if k <= m.len() {
            let p = m[k - 1];
            Ok(h.subrange(0, p) + r + h.subrange(p + n.len(), h.len() as int))
        } else {
            Err(Some(m.len()))
        }
    }
}

proof fn lemma_matches_found(h: Seq<char>, n: Seq<char>, from: int)
    requires
        n.len() > 0,
        0 <= from,
    ensures
        (exists|i: int| from <= i && occurs_at(h, n, i)) ==> crate::search::matches_from(h, n, from).len()
            > 0,
    decreases h.len() - from,
{
    if from + n.len() <= h.len() && !occurs_at(h, n, from) {
        lemma_matches_found(h, n, from + 1);
        if exists|i: int| from <= i && occurs_at(h, n, i) {
            let i = choose|i: int| from <= i && occurs_at(h, n, i);
            assert(i != from);
            assert(from + 1 <= i && occurs_at(h, n, i));
        }
    }
    if from + n.len() > h.len() {
        if exists|i: int| from <= i && occurs_at(h, n, i) {
            let i = choose|i: int| from <= i && occurs_at(h, n, i);
            assert(i + n.len() <= h.len());
        }
    }
}

fn interleave_exec(h: &Vec<char>, r: &Vec<char>) -> (out: Vec<char>)
    ensures
        out@ == interleave(h@, r@),
{
    let mut out = crate::text::copy_chars(r);
    let mut i: usize = 0;
    while i < h.len()
        invariant
            0 <= i <= h@.len(),
            out@ == interleave(h@.subrange(0, i as int), r@),
        decreases h@.len() - i,
    {
        assert(h@.subrange(0, i + 1).drop_last() =~= h@.subrange(0, i as int));
        out.push(h[i]);
        extend_from(&mut out, r.as_slice());
        i = i + 1;
    }
    assert(h@.subrange(0, h@.len() as int) =~= h@);
    out
}

/// `replace_in_file` of the editor's own tools on the text of a file.
pub fn replace_occurrence_in_text(content: &str, old_text: &str, new_text: &str, occurrence: usize) -> (r: Result<String, ReplaceFailure>)
    ensures
        match replaced_occurrence(content@, old_text@, new_text@, occurrence) {
            Ok(t) => r is Ok && r->Ok_0@ == t,
            Err(None) => r matches Err(ReplaceFailure::NotFound),
            Err(Some(n)) => r matches Err(ReplaceFailure::MissingOccurrence { found }) && found == n,
        },
{
    let h = chars_of(content);
    let n = chars_of(old_text);
    let rep = chars_of(new_text);
    if n.len() == 0 {
        if occurrence == 0 {
            let out = interleave_exec(&h, &rep);
            return Ok(string_from_chars(out.as_slice()));
        }
        let mut out = crate::text::copy_chars(&rep);
        extend_from(&mut out, h.as_slice());
        return Ok(string_from_chars(out.as_slice()));
    }
    let m = crate::search::match_char_indices(h.as_slice(), n.as_slice());
    proof {
        lemma_matches_found(h@, n@, 0);
    }
    assert(m@.map_values(|i: usize| i as int).len() == m@.len());
    if m.len() == 0 {
        assert(!contains_text(content@, old_text@));
        return Err(ReplaceFailure::NotFound);
    }
    proof {
        let p = m@[0] as int;
        assert(m@.map_values(|i: usize| i as int)[0] == p);
        lemma_match_occurs(h@, n@, 0, 0);
        assert(occurs_at(h@, n@, p));
    }
    if occurrence == 0 {
        let out = crate::search::replace_all_chars(h.as_slice(), n.as_slice(), rep.as_slice());
        return Ok(string_from_chars(out.as_slice()));
    }
    if occurrence > m.len() {
        return Err(ReplaceFailure::MissingOccurrence { found: m.len() });
    }
    let hl = h.len();
    let p = m[occurrence - 1];
    assert(m@.map_values(|i: usize| i as int)[occurrence - 1] == p as int);
    assert(p + n@.len() <= h@.len());
    let mut out = sub_vec(&h, 0, p);
    extend_from(&mut out, rep.as_slice());
    let tail = sub_vec(&h, p + n.len(), h.len());
    extend_from(&mut out, tail.as_slice());
    Ok(string_from_chars(out.as_slice()))
}

/// Every reported match really is a match.
proof fn lemma_match_occurs(h: Seq<char>, n: Seq<char>, from: int, k: int)
    requires
        n.len() > 0,
        0 <= from,
        0 <= k < crate::search::matches_from(h, n, from).len(),
    ensures
        occurs_at(h, n, crate::search::matches_from(h, n, from)[k]),
    decreases h.len() - from,
{
    if from + n.len() <= h.len() {
        if occurs_at(h, n, from) {
            if k > 0 {
                lemma_match_occurs(h, n, from + n.len(), k - 1);
            }
        } else {
            lemma_match_occurs(h, n, from + 1, k);
        }
    }
}

/// The tools of the editor's own tool set.
#[derive(Debug, Clone, Copy, PartialEq, Eq, Structural)]
pub enum DirectTool {
    ReadFile,
    ListDirectory,
    FindFiles,
    Grep,
    EditLines,
    InsertAt,
    AppendTo,
    ReplaceInFile,
    CreateFile,
    DeleteFile,
    MoveFile,
    RunShell,
    ReadMetadata,
    WriteMetadataNote,
    ListTasks,
    AddTask,
    CompleteTask,
    UpdateTask,
    LoadSkill,
    ListSkills,
}

/// The tool a call names.
pub open spec fn direct_tool_of(name: Seq<char>) -> Option<DirectTool> {
    if name == "read_file"@ { Some(DirectTool::ReadFile) }
    else if name == "list_directory"@ { Some(DirectTool::ListDirectory) }
    else if name == "find_files"@ { Some(DirectTool::FindFiles) }
    else if name == "grep"@ { Some(DirectTool::Grep) }
    else if name == "edit_lines"@ { Some(DirectTool::EditLines) }
    else if name == "insert_at"@ { Some(DirectTool::InsertAt) }
    else if name == "append_to"@ { Some(DirectTool::AppendTo) }
    else if name == "replace_in_file"@ { Some(DirectTool::ReplaceInFile) }
    else if name == "create_file"@ { Some(DirectTool::CreateFile) }
    else if name == "delete_file"@ { Some(DirectTool::DeleteFile) }
    else if name == "move_file"@ { Some(DirectTool::MoveFile) }
    else if name == "run_shell"@ { Some(DirectTool::RunShell) }
    else if name == "read_metadata"@ { Some(DirectTool::ReadMetadata) }
    else if name == "write_metadata_note"@ { Some(DirectTool::WriteMetadataNote) }
    else if name == "list_tasks"@ { Some(DirectTool::ListTasks) }
    else if name == "add_task"@ { Some(DirectTool::AddTask) }
    else if name == "complete_task"@ { Some(DirectTool::CompleteTask) }
    else if name == "update_task"@ { Some(DirectTool::UpdateTask) }
    else if name == "load_skill"@ { Some(DirectTool::LoadSkill) }
    else if name == "list_skills"@ { Some(DirectTool::ListSkills) }
    else { None }
}

pub fn direct_tool_named(name: &str) -> (r: Option<DirectTool>)
    ensures
        r == direct_tool_of(name@),
{
    if str_eq(name, "read_file") { Some(DirectTool::ReadFile) }
    else if str_eq(name, "list_directory") { Some(DirectTool::ListDirectory) }
    else if str_eq(name, "find_files") { Some(DirectTool::FindFiles) }
    else if str_eq(name, "grep") { Some(DirectTool::Grep) }
    else if str_eq(name, "edit_lines") { Some(DirectTool::EditLines) }
    else if str_eq(name, "insert_at") { Some(DirectTool::InsertAt) }
    else if str_eq(name, "append_to") { Some(DirectTool::AppendTo) }
    else if str_eq(name, "replace_in_file") { Some(DirectTool::ReplaceInFile) }
    else if str_eq(name, "create_file") { Some(DirectTool::CreateFile) }
    else if str_eq(name, "delete_file") { Some(DirectTool::DeleteFile) }
    else if str_eq(name, "move_file") { Some(DirectTool::MoveFile) }
    else if str_eq(name, "run_shell") { Some(DirectTool::RunShell) }
    else if str_eq(name, "read_metadata") { Some(DirectTool::ReadMetadata) }
    else if str_eq(name, "write_metadata_note") { Some(DirectTool::WriteMetadataNote) }
    else if str_eq(name, "list_tasks") { Some(DirectTool::ListTasks) }
    else if str_eq(name, "add_task") { Some(DirectTool::AddTask) }
    else if str_eq(name, "complete_task") { Some(DirectTool::CompleteTask) }
    else if str_eq(name, "update_task") { Some(DirectTool::UpdateTask) }
    else if str_eq(name, "load_skill") { Some(DirectTool::LoadSkill) }
    else if str_eq(name, "list_skills") { Some(DirectTool::ListSkills) }
    else { None }
}

/// The answer to a call of a tool that does not exist.
pub fn unknown_tool_message(name: &str) -> (r: String)
    ensures
        r@ == "Unknown tool: "@ + name@,
{
    let mut s = "Unknown tool: ".to_owned();
    s.append(name);
    s
}

/// `replace_in_file` with occurrence `k >= 1`: a missing old text is
/// reported as not found; otherwise the result is the text with one real
/// occurrence of the old text cut out and the new text put in its place
/// (occurrence 1 is the first one), or the report that there are fewer than
/// `k` occurrences; an empty old text puts the new text in front.
pub proof fn law_replace_occurrence(h: Seq<char>, n: Seq<char>, r: Seq<char>, k: usize)
    requires
        k >= 1,
    ensures
        (replaced_occurrence(h, n, r, k) == Err::<Seq<char>, Option<nat>>(None)) <==> !contains_text(h, n),
        n.len() == 0 ==> replaced_occurrence(h, n, r, k) == Ok::<Seq<char>, Option<nat>>(r + h),
        n.len() > 0 ==> (replaced_occurrence(h, n, r, k) matches Ok(t) ==> exists|p: int|
            #![trigger occurs_at(h, n, p)]
            occurs_at(h, n, p) && t == h.subrange(0, p) + r + h.subrange(p + n.len(), h.len() as int) && (k
                == 1 ==> forall|i: int| 0 <= i < p ==> !occurs_at(h, n, i))),
        n.len() > 0 ==> (replaced_occurrence(h, n, r, k) matches Err(Some(c)) ==> 1 <= c < k),
{
    if n.len() > 0 {
        crate::search::law_matches_are_first_occurrences(h, n, 0);
        let m = match_positions(h, n);
        if contains_text(h, n) {
            let i = choose|i: int| occurs_at(h, n, i);
            assert(0 <= i && occurs_at(h, n, i));
            assert(m.len() > 0);
            if k <= m.len() {
                let p = m[k - 1];
                assert(occurs_at(h, n, p));
            }
        }
    }
}

} // verus!

verus! {

/// What `read_file` answers for a file: its path, line count and text.
pub fn read_file_report(path: &str, content: &str) -> (r: String)
    ensures
        r@ == "File: "@ + path@ + " ("@ + decimal(std_lines(content@).len()) + " lines)\n---\n"@
            + content@,
{
    let lines = lines_of(content);
    assert(views_of(lines@).len() == lines@.len());
    let mut s = "File: ".to_owned();
    s.append(path);
    s.append(" (");
    push_decimal(&mut s, lines.len() as u64);
    s.append(" lines)\n---\n");
    s.append(content);
    s
}

/// `parts` joined with `\n`.
pub open spec fn joined_lines(parts: Seq<Seq<char>>) -> Seq<char> {
    join_seq(parts, '\n')
}

fn join_strings(v: &Vec<String>) -> (r: String)
    ensures
        r@ == joined_lines(crate::order::str_views(v@)),
{
    let mut cv: Vec<Vec<char>> = Vec::new();
    let mut i: usize = 0;
    while i < v.len()
        invariant
            0 <= i <= v@.len(),
            views_of(cv@) == crate::order::str_views(v@).subrange(0, i as int),
        decreases v@.len() - i,
    {
        let ghost pre = views_of(cv@);
        cv.push(chars_of(v[i].as_str()));
        assert(views_of(cv@) =~= pre.push(v@[i as int]@));
        assert(crate::order::str_views(v@).subrange(0, i + 1) =~= crate::order::str_views(v@).subrange(
            0,
            i as int,
        ).push(v@[i as int]@));
        i = i + 1;
    }
    assert(crate::order::str_views(v@).subrange(0, v@.len() as int) =~= crate::order::str_views(v@));
    let j = join_range(&cv, 0, cv.len(), '\n');
    assert(views_of(cv@).subrange(0, cv@.len() as int) =~= views_of(cv@));
    string_from_chars(j.as_slice())
}

/// What `list_directory` answers for the entries found (directories end in
/// `/`): them in ascending order, one per line, or that the directory is
/// empty.
pub fn directory_listing(path: &str, entries: Vec<String>) -> (r: String)
    ensures
        entries@.len() == 0 ==> r@ == path@ + " is empty"@,
        entries@.len() > 0 ==> exists|sorted: Seq<Seq<char>>|
            crate::order::sorted_strings(sorted) && sorted.to_multiset() == crate::order::str_views(
                entries@,
            ).to_multiset() && r@ == joined_lines(sorted),
{
    if entries.len() == 0 {
        let mut s = path.to_owned();
        s.append(" is empty");
        return s;
    }
    let sorted = crate::order::sort_strings(entries);
    let r = join_strings(&sorted);
    assert(crate::order::sorted_strings(crate::order::str_views(sorted@)));
    r
}

/// What a recursive `list_directory` answers for the entries in walk order
/// (each directory's entries sorted by name, a directory before its
/// contents): them in that order, one per line, or that the directory is
/// empty.
pub fn recursive_listing(path: &str, entries: Vec<String>) -> (r: String)
    ensures
        entries@.len() == 0 ==> r@ == path@ + " is empty"@,
        entries@.len() > 0 ==> r@ == joined_lines(crate::order::str_views(entries@)),
{
    if entries.len() == 0 {
        let mut s = path.to_owned();
        s.append(" is empty");
        return s;
    }
    join_strings(&entries)
}

/// The glob `find_files` matches with: under a sub-folder, a pattern not
/// starting with `**/` gets that prefix.
pub fn find_files_glob(pattern: &str, in_subfolder: bool) -> (r: String)
    ensures
        r@ == if in_subfolder && !crate::text::seq_starts_with(pattern@, "**/"@) {
            "**/"@ + pattern@
        } else {
            pattern@
        },
{
    let pc = chars_of(pattern);
    let pre = chars_of("**/");
    if in_subfolder && !crate::text::starts_with_chars(pc.as_slice(), pre.as_slice()) {
        let mut s = "**/".to_owned();
        s.append(pattern);
        s
    } else {
        pattern.to_owned()
    }
}

/// At most `n` first entries of `v`.
pub open spec fn truncated(v: Seq<Seq<char>>, n: nat) -> Seq<Seq<char>> {
    if v.len() > n { v.subrange(0, n as int) } else { v }
}

/// What `find_files` answers for the matching paths: the first 200 in
/// ascending order, one per line, or that nothing matched.
pub fn find_files_report(pattern: &str, matches: Vec<String>) -> (r: String)
    ensures
        matches@.len() == 0 ==> r@ == "No files match '"@ + pattern@ + "'"@,
        matches@.len() > 0 ==> exists|sorted: Seq<Seq<char>>|
            crate::order::sorted_strings(sorted) && sorted.to_multiset() == crate::order::str_views(
                matches@,
            ).to_multiset() && r@ == joined_lines(truncated(sorted, 200)),
{
    if matches.len() == 0 {
        let mut s = "No files match '".to_owned();
        s.append(pattern);
        s.append("'");
        return s;
    }
    let mut sorted = crate::order::sort_strings(matches);
    let ghost full = crate::order::str_views(sorted@);
    if sorted.len() > 200 {
        sorted.truncate(200);
    }
    assert(crate::order::str_views(sorted@) =~= truncated(full, 200));
    join_strings(&sorted)
}

} // verus!

verus! {

/// Whether `n` occurs in `h` (`str::contains`).
pub fn text_contains(h: &str, n: &str) -> (r: bool)
    ensures
        r == contains_text(h@, n@),
{
    let hc = chars_of(h);
    let nc = chars_of(n);
    if nc.len() == 0 {
        return true;
    }
    let m = crate::search::match_char_indices(hc.as_slice(), nc.as_slice());
    proof {
        lemma_matches_found(hc@, nc@, 0);
        assert(m@.map_values(|i: usize| i as int).len() == m@.len());
        if m@.len() > 0 {
            assert(m@.map_values(|i: usize| i as int)[0] == m@[0] as int);
            lemma_match_occurs(hc@, nc@, 0, 0);
            assert(occurs_at(hc@, nc@, m@[0] as int));
        }
    }
    m.len() > 0
}

/// `n` in decimal, right-aligned in four columns (`{:4}`).
pub open spec fn pad4(n: nat) -> Seq<char> {
    let d = decimal(n);
    if d.len() < 4 {
        Seq::new((4 - d.len()) as nat, |i: int| ' ') + d
    } else {
        d
    }
}

/// One line of grep context: `>` marks the matching line.
pub open spec fn context_line(l: Seq<char>, lnum: nat, hit: bool) -> Seq<char> {
    (if hit { ">"@ } else { " "@ }) + pad4(lnum) + ": "@ + l
}

/// The grep output for the lines of one file from line index `i` on: each
/// matching line gives a `path:line` header, its context lines and a blank
/// line, and the search resumes after the context.
pub open spec fn grep_from(rel: Seq<char>, lines: Seq<Seq<char>>, pat: Seq<char>, ctx: nat, i: int) -> Seq<Seq<char>>
    decreases lines.len() - i,
{
    if i < 0 || i >= lines.len() {
        Seq::empty()
    } else if contains_text(lines[i], pat) {
        let start: int = if i >= ctx { i - ctx } else { 0 };
        let end: int = if i + ctx + 1 < lines.len() { i + ctx + 1 } else { lines.len() as int };
        seq![rel + ":"@ + decimal((i + 1) as nat)] + Seq::new(
            (end - start) as nat,
            |k: int| context_line(lines[start + k], (start + k + 1) as nat, start + k == i),
        ) + seq![Seq::<char>::empty()] + grep_from(rel, lines, pat, ctx, end)
    } else {
        grep_from(rel, lines, pat, ctx, i + 1)
    }
}

fn pad4_exec(s: &mut String, n: u64)
    ensures
        final(s)@ == old(s)@ + pad4(n as nat),
{
    let d = crate::text::decimal_chars(n);
    let mut k = d.len();
    let ghost pre = s@;
    while k < 4
        invariant
            d@ == decimal(n as nat),
            d@.len() <= k,
            k <= 4 || k == d@.len(),
            s@ == pre + Seq::new((k - d@.len()) as nat, |i: int| ' '),
        decreases 4 - k,
    {
        s.append(" ");
        proof {
            reveal_strlit(" ");
        }
        assert(pre + Seq::new((k + 1 - d@.len()) as nat, |i: int| ' ') =~= pre + Seq::new(
            (k - d@.len()) as nat,
            |i: int| ' ',
        ) + " "@);
        k = k + 1;
    }
    s.append(string_from_chars(d.as_slice()).as_str());
    proof {
        if d@.len() < 4 {
            assert(s@ =~= old(s)@ + pad4(n as nat));
        } else {
            assert(Seq::new((k - d@.len()) as nat, |i: int| ' ') =~= Seq::<char>::empty());
            assert(s@ =~= old(s)@ + pad4(n as nat));
        }
    }
}

/// The grep output for one file (`rel` is its path relative to the search
/// root, `lines` its lines).
pub fn grep_file_lines(rel: &str, lines: &Vec<String>, pattern: &str, context: usize) -> (r: Vec<String>)
    requires
        context + lines@.len() + 1 <= usize::MAX,
    ensures
        crate::order::str_views(r@) == grep_from(
            rel@,
            crate::order::str_views(lines@),
            pattern@,
            context as nat,
            0,
        ),
{
    let ghost lv = crate::order::str_views(lines@);
    let n = lines.len();
    let mut out: Vec<String> = Vec::new();
    let mut i: usize = 0;
    while i < n
        invariant
            n == lines@.len(),
            context + n + 1 <= usize::MAX,
            lv == crate::order::str_views(lines@),
            0 <= i <= n,
            crate::order::str_views(out@) + grep_from(rel@, lv, pattern@, context as nat, i as int)
                == grep_from(rel@, lv, pattern@, context as nat, 0),
        decreases n - i,
    {
        if text_contains(lines[i].as_str(), pattern) {
            assert(lv[i as int] == lines@[i as int]@);
            let start = if i >= context {
                i - context
            } else {
                0
            };
            let end = if i + context + 1 < n {
                i + context + 1
            } else {
                n
            };
            let ghost before = crate::order::str_views(out@);
            let mut header = rel.to_owned();
            header.append(":");
            push_decimal(&mut header, (i + 1) as u64);
            out.push(header);
            let ghost block = Seq::new(
                (end - start) as nat,
                |k: int| context_line(lv[start + k], (start + k + 1) as nat, start + k == i),
            );
            let mut j = start;
            while j < end
                invariant
                    start <= j <= end <= n,
                    n == lines@.len(),
                    lv == crate::order::str_views(lines@),
                    block == Seq::new(
                        (end - start) as nat,
                        |k: int| context_line(lv[start + k], (start + k + 1) as nat, start + k == i),
                    ),
                    crate::order::str_views(out@) == before.push(rel@ + ":"@ + decimal((i + 1) as nat))
                        + block.subrange(0, j - start),
                decreases end - j,
            {
                let ghost pre = crate::order::str_views(out@);
                let mut l = if j == i {
                    ">".to_owned()
                } else {
                    " ".to_owned()
                };
                pad4_exec(&mut l, (j + 1) as u64);
                l.append(": ");
                l.append(lines[j].as_str());
                assert(l@ == context_line(lv[j as int], (j + 1) as nat, j == i));
                out.push(l);
                assert(crate::order::str_views(out@) =~= pre.push(l@));
                assert(block.subrange(0, j + 1 - start) =~= block.subrange(0, j - start).push(block[j - start]));
                j = j + 1;
            }
            out.push(String::new());
            proof {
                assert(block.subrange(0, end - start) =~= block);
                let g = grep_from(rel@, lv, pattern@, context as nat, end as int);
                assert(crate::order::str_views(out@) =~= before.push(rel@ + ":"@ + decimal((i + 1) as nat)) + block
                    + seq![Seq::<char>::empty()]);
                assert(grep_from(rel@, lv, pattern@, context as nat, i as int) == seq![rel@ + ":"@ + decimal(
                    (i + 1) as nat,
                )] + block + seq![Seq::<char>::empty()] + g);
                assert(before + (seq![rel@ + ":"@ + decimal((i + 1) as nat)] + block + seq![Seq::<char>::empty()] + g)
                    =~= crate::order::str_views(out@) + g);
            }
            i = end;
        } else {
            assert(lv[i as int] == lines@[i as int]@);
            i = i + 1;
        }
    }
    proof {
        assert(crate::order::str_views(out@) + Seq::<Seq<char>>::empty() =~= crate::order::str_views(out@));
    }
    out
}

/// What `grep` answers for all result lines: the first 500, one per line,
/// or that nothing matched.
pub fn grep_report(pattern: &str, results: Vec<String>) -> (r: String)
    ensures
        results@.len() == 0 ==> r@ == "No matches for '"@ + pattern@ + "'"@,
        results@.len() > 0 ==> r@ == joined_lines(truncated(crate::order::str_views(results@), 500)),
{
    if results.len() == 0 {
        let mut s = "No matches for '".to_owned();
        s.append(pattern);
        s.append("'");
        return s;
    }
    let ghost full = crate::order::str_views(results@);
    let mut results = results;
    if results.len() > 500 {
        results.truncate(500);
    }
    assert(crate::order::str_views(results@) =~= truncated(full, 500));
    join_strings(&results)
}

/// What the editor's own skill tools answer when no skill registry is
/// loaded: an error.
pub fn skills_unavailable() -> (r: (String, bool))
    ensures
        r.0@ == "Skill registry not available"@,
        r.1,
{
    ("Skill registry not available".to_owned(), true)
}

/// What `load_skill` answers when the registry cannot load skill `name`
/// (`reason` is the registry's error text): an error.
pub fn skill_load_failure(name: &str, reason: &str) -> (r: (String, bool))
    ensures
        r.0@ == "Cannot load skill '"@ + name@ + "': "@ + reason@,
        r.1,
{
    let mut s = "Cannot load skill '".to_owned();
    s.append(name);
    s.append("': ");
    s.append(reason);
    (s, true)
}

/// What a tool answers when its input lacks a required field: an error.
pub fn missing_field(key: &str) -> (r: (String, bool))
    ensures
        r.0@ == "Missing required field '"@ + key@ + "'"@,
        r.1,
{
    let mut s = "Missing required field '".to_owned();
    s.append(key);
    s.append("'");
    (s, true)
}

} // verus!
