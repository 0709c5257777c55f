//! Keeping one marked line up to date in a shell start-up file: the marker
//! on a line of its own, and the managed line right after it.

use vstd::prelude::*;
use crate::text::str_eq;

verus! {

/// `s` without its leading and trailing white space, as `str::trim` of the
/// standard library gives it.
pub uninterp spec fn trimmed(s: Seq<char>) -> Seq<char>;

/// The lines of `s` without their line endings, as `str::lines` of the
/// standard library gives them.
pub uninterp spec fn lines_of(s: Seq<char>) -> Seq<Seq<char>>;

/// The strings of a vector as mathematics.
pub open spec fn texts(lines: Seq<String>) -> Seq<Seq<char>> {
    Seq::new(lines.len(), |i: int| lines[i]@)
}

/// Calls `str::trim`, which returns the part of the string between its
/// leading and its trailing white space.
#[verifier::external_body]
fn trim(s: &str) -> (r: &str)
    ensures
        r@ == trimmed(s@),
{
    s.trim()
}

/// Calls `str::lines` and collects what it yields: the lines of the string,
/// each without its line ending.
#[verifier::external_body]
fn split_lines(s: &str) -> (r: Vec<String>)
    ensures
        texts(r@) == lines_of(s@),
{
    s.lines().map(|l| l.to_string()).collect()
}

/// The lines from position `i` on, brought up to date: every marker line is
/// dropped together with the line after it, and the first one met, unless
/// one was `inserted` before, gives way to the marker and the managed line.
/// When the end is reached without any marker, both are appended, after an
/// empty line if there was anything before.
pub open spec fn merged_from(lines: Seq<Seq<char>>, line: Seq<char>, marker: Seq<char>, i: int, inserted: bool) -> Seq<Seq<char>>
    decreases lines.len() - i,
{
    if i < 0 || i >= lines.len() {
        if inserted {
            Seq::empty()
        } else if lines.len() > 0 {
            seq![Seq::<char>::empty(), marker, line]
        } else {
            seq![marker, line]
        }
    } else if trimmed(lines[i]) == marker {
        let next = if i + 2 <= lines.len() { i + 2 } else { lines.len() as int };
        if inserted {
            merged_from(lines, line, marker, next, true)
        } else {
            seq![marker, line] + merged_from(lines, line, marker, next, true)
        }
    } else {
        seq![lines[i]] + merged_from(lines, line, marker, i + 1, inserted)
    }
}

/// The lines brought up to date.
pub open spec fn merged(lines: Seq<Seq<char>>, line: Seq<char>, marker: Seq<char>) -> Seq<Seq<char>> {
    merged_from(lines, line, marker, 0, false)
}

/// The lines with a line feed between each two.
pub open spec fn joined(lines: Seq<Seq<char>>) -> Seq<char>
    decreases lines.len(),
{
    if lines.len() == 0 {
        Seq::empty()
    } else if lines.len() == 1 {
        lines[0]
    } else {
        joined(lines.drop_last()) + seq!['\n'] + lines.last()
    }
}

/// The content of a file with the given lines: a line feed between each two
/// and one at the end, unless the file is empty.
pub open spec fn rendered(lines: Seq<Seq<char>>) -> Seq<char> {
    if joined(lines).len() > 0 {
        joined(lines) + seq!['\n']
    } else {
        joined(lines)
    }
}

/// What is to be written in place of `existing`, if anything.
pub open spec fn upserted(existing: Seq<char>, line: Seq<char>, marker: Seq<char>) -> Option<Seq<char>> {
    let updated = rendered(merged(lines_of(existing), line, marker));
    if updated == existing {
        None
    } else {
        Some(updated)
    }
}

/// Brings the lines of a file up to date with the managed `line`.
pub fn merge_marked_lines(lines: &Vec<String>, line: &str, marker: &str) -> (r: Vec<String>)
    ensures
        texts(r@) == merged(texts(lines@), line@, marker@),
{
    let n = lines.len();
    let mut out: Vec<String> = Vec::new();
    let mut inserted = false;
    let mut i: usize = 0;
    let ghost all = texts(lines@);
    assert(texts(out@) + merged_from(all, line@, marker@, 0, false) =~= merged(all, line@, marker@));
    while i < n
        invariant
            n == lines@.len(),
            i <= n,
            all == texts(lines@),
            !inserted ==> out@.len() == i,
            texts(out@) + merged_from(all, line@, marker@, i as int, inserted) == merged(all, line@, marker@),
        decreases n - i,
    {
        let ghost before = texts(out@);
        let ghost rest = merged_from(all, line@, marker@, i as int, inserted);
        assert(all[i as int] == lines@[i as int]@);
        if str_eq(trim(lines[i].as_str()), marker) {
            if !inserted {
                out.push(String::from_str(marker));
                out.push(String::from_str(line));
                inserted = true;
                assert(texts(out@) =~= before + seq![marker@, line@]);
            }
            let ghost next = if i + 2 <= n { (i + 2) as int } else { n as int };
            proof {
                assert(texts(out@) + merged_from(all, line@, marker@, next, true) =~= before + rest);
            }
            i += 1;
            if i < n {
                i += 1;
            }
        } else {
            out.push(lines[i].clone());
            assert(texts(out@) =~= before + seq![all[i as int]]);
            assert(texts(out@) + merged_from(all, line@, marker@, i + 1, inserted) =~= before + rest);
            i += 1;
        }
    }
    if !inserted {
        let ghost before = texts(out@);
        if out.len() > 0 {
            out.push(String::new());
        }
        out.push(String::from_str(marker));
        out.push(String::from_str(line));
        proof {
            if n > 0 {
                assert(texts(out@) =~= before + seq![Seq::<char>::empty(), marker@, line@]);
            } else {
                assert(texts(out@) =~= before + seq![marker@, line@]);
            }
        }
    } else {
        assert(texts(out@) + Seq::<Seq<char>>::empty() =~= texts(out@));
    }
    out
}

/// The content of a file with the given lines.
pub fn render_lines(lines: &Vec<String>) -> (r: String)
    ensures
        r@ == rendered(texts(lines@)),
{
    let n = lines.len();
    let mut out = String::new();
    let mut i: usize = 0;
    let ghost all = texts(lines@);
    assert(all.take(0) =~= Seq::<Seq<char>>::empty());
    while i < n
        invariant
            n == lines@.len(),
            i <= n,
            all == texts(lines@),
            out@ == joined(all.take(i as int)),
        decreases n - i,
    {
        proof {
            let next = all.take(i + 1);
            assert(next.drop_last() =~= all.take(i as int));
            assert(next.last() == lines@[i as int]@);
            if i == 0 {
                assert(next[0] == lines@[i as int]@);
            }
        }
        if i > 0 {
            out.push('\n');
        }
        out.append(lines[i].as_str());
        proof {
            let next = all.take(i + 1);
            if i == 0 {
                assert(out@ =~= next[0]);
            } else {
                assert(out@ =~= joined(all.take(i as int)) + seq!['\n'] + next.last());
            }
        }
        i += 1;
    }
    assert(all.take(n as int) =~= all);
    if out.as_str().unicode_len() > 0 {
        out.push('\n');
    }
    out
}

/// The new content of a start-up file whose content is `existing`, so that
/// it holds `marker` and, right after it, `line`, once; `None` when the file
/// holds exactly that already and needs no writing.
pub fn upsert_marked_path_line(existing: &str, line: &str, marker: &str) -> (r: Option<String>)
    ensures
        match r {
            Some(updated) => upserted(existing@, line@, marker@) == Some(updated@),
            None => upserted(existing@, line@, marker@) is None,
        },
{
    let lines = split_lines(existing);
    let merged = merge_marked_lines(&lines, line, marker);
    let updated = render_lines(&merged);
    if updated == String::from_str(existing) {
        None
    } else {
        Some(updated)
    }
}

} // verus!
