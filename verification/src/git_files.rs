//! The staged files of a repository with the patch text of each, assembled
//! from the deltas and patch lines that git reports.
use vstd::prelude::*;
use crate::text::{extend_chars, lit, str_chars, string_from_chars};

verus! {

/// How git classifies the change of one file.
#[derive(Debug, Clone, Copy, PartialEq, Eq, Structural)]
pub enum DeltaKind {
    Added,
    Deleted,
    Modified,
    Renamed,
    Copied,
    Other,
}

/// The one-letter status shown for a change.
pub open spec fn status_letter(k: DeltaKind) -> Seq<char> {
    match k {
        DeltaKind::Added => "A"@,
        DeltaKind::Deleted => "D"@,
        DeltaKind::Modified => "M"@,
        DeltaKind::Renamed => "R"@,
        DeltaKind::Copied => "C"@,
        DeltaKind::Other => "?"@,
    }
}

fn status_letter_exec(k: DeltaKind) -> (s: String)
    ensures
        s@ == status_letter(k),
{
    let c = match k {
        DeltaKind::Added => lit("A"),
        DeltaKind::Deleted => lit("D"),
        DeltaKind::Modified => lit("M"),
        DeltaKind::Renamed => lit("R"),
        DeltaKind::Copied => lit("C"),
        DeltaKind::Other => lit("?"),
    };
    string_from_chars(&c)
}

/// The path a change is reported under: the old path of a deleted file,
/// the new path of any other.
pub fn get_delta_path(kind: DeltaKind, old_path: Option<String>, new_path: Option<String>) -> (r: Option<String>)
    ensures
        r == if kind == DeltaKind::Deleted {
            old_path
        } else {
            new_path
        },
{
    match kind {
        DeltaKind::Deleted => old_path,
        _ => new_path,
    }
}

/// One line of a patch: the file it belongs to (empty when git names none),
/// its origin (`+`, `-`, ` ` or another marker) and its text.
pub struct PatchLine {
    pub path: String,
    pub origin: char,
    pub content: String,
}

/// A patch line as path, origin and text.
pub type PatchLineV = (Seq<char>, char, Seq<char>);

/// The views of patch lines.
pub open spec fn patch_views(v: Seq<PatchLine>) -> Seq<PatchLineV> {
    v.map_values(|l: PatchLine| (l.path@, l.origin, l.content@))
}

/// Collection state: the texts recorded so far (path and text, in order),
/// the path being collected and its text.
pub type CollectState = (Seq<(Seq<char>, Seq<char>)>, Seq<char>, Seq<char>);

/// The state after the first `i` patch lines: when the path changes away
/// from a non-empty one, the text collected for it is recorded and a new
/// text begins; each line adds its origin (for `+`, `-` and ` `) and text.
pub open spec fn collect(ls: Seq<PatchLineV>, i: int) -> CollectState
    decreases i,
{
    if i <= 0 || i > ls.len() {
        (Seq::empty(), Seq::empty(), Seq::empty())
    } else {
        let prev = collect(ls, i - 1);
        let l = ls[i - 1];
        let switched = prev.1.len() > 0 && l.0 != prev.1;
        let recorded = if switched {
            prev.0.push((prev.1, prev.2))
        } else {
            prev.0
        };
        let text = if switched {
            Seq::<char>::empty()
        } else {
            prev.2
        };
        let marked = if l.1 == '+' || l.1 == '-' || l.1 == ' ' {
            text.push(l.1)
        } else {
            text
        };
        (recorded, l.0, marked + l.2)
    }
}

/// All texts recorded once every line is read (the last one included when
/// its path is not empty).
pub open spec fn recorded_texts(ls: Seq<PatchLineV>) -> Seq<(Seq<char>, Seq<char>)> {
    let st = collect(ls, ls.len() as int);
    if st.1.len() > 0 {
        st.0.push((st.1, st.2))
    } else {
        st.0
    }
}

/// The text recorded last for `path` (a later record replaces an earlier
/// one), or nothing.
pub open spec fn last_text(rs: Seq<(Seq<char>, Seq<char>)>, path: Seq<char>) -> Seq<char>
    decreases rs.len(),
{
    if rs.len() == 0 {
        Seq::empty()
    } else if rs.last().0 == path {
        rs.last().1
    } else {
        last_text(rs.drop_last(), path)
    }
}

/// A staged file: its path, status letter and patch text.
#[derive(Debug, Clone, PartialEq, Eq)]
pub struct GitFile {
    pub path: String,
    pub status: String,
    pub diff: String,
}

fn chars_eq(a: &Vec<char>, b: &Vec<char>) -> (r: bool)
    ensures
        r == (a@ == b@),
{
    if a.len() != b.len() {
        return false;
    }
    let mut i: usize = 0;
    while i < a.len()
        invariant
            a@.len() == b@.len(),
            i <= a@.len(),
            forall|k: int| 0 <= k < i ==> a@[k] == b@[k],
        decreases a.len() - i,
    {
        if a[i] != b[i] {
            return false;
        }
        i = i + 1;
    }
    assert(a@ =~= b@);
    true
}

fn collect_texts(lines: &Vec<PatchLine>) -> (r: Vec<(Vec<char>, Vec<char>)>)
    ensures
        r@.map_values(|p: (Vec<char>, Vec<char>)| (p.0@, p.1@)) == recorded_texts(patch_views(lines@)),
{
    let ghost ls = patch_views(lines@);
    let mut recorded: Vec<(Vec<char>, Vec<char>)> = Vec::new();
    let mut cur_path: Vec<char> = Vec::new();
    let mut cur_text: Vec<char> = Vec::new();
    let mut i: usize = 0;
    while i < lines.len()
        invariant
            ls == patch_views(lines@),
            i <= lines@.len(),
            recorded@.map_values(|p: (Vec<char>, Vec<char>)| (p.0@, p.1@)) == collect(ls, i as int).0,
            cur_path@ == collect(ls, i as int).1,
            cur_text@ == collect(ls, i as int).2,
        decreases lines.len() - i,
    {
        let l = &lines[i];
        let path = str_chars(l.path.as_str());
        let ghost before = recorded@;
        if cur_path.len() > 0 && !chars_eq(&path, &cur_path) {
            let entry = (cur_path, cur_text);
            recorded.push(entry);
            assert(recorded@.map_values(|p: (Vec<char>, Vec<char>)| (p.0@, p.1@)) =~= before.map_values(
                |p: (Vec<char>, Vec<char>)| (p.0@, p.1@),
            ).push((collect(ls, i as int).1, collect(ls, i as int).2)));
            cur_text = Vec::new();
        }
        if l.origin == '+' || l.origin == '-' || l.origin == ' ' {
            cur_text.push(l.origin);
        }
        extend_chars(&mut cur_text, &str_chars(l.content.as_str()));
        cur_path = path;
        proof {
            let nxt = collect(ls, i + 1);
            assert(cur_text@ =~= nxt.2);
        }
        i = i + 1;
    }
    if cur_path.len() > 0 {
        let ghost before = recorded@;
        recorded.push((cur_path, cur_text));
        assert(recorded@.map_values(|p: (Vec<char>, Vec<char>)| (p.0@, p.1@)) =~= before.map_values(
            |p: (Vec<char>, Vec<char>)| (p.0@, p.1@),
        ).push((collect(ls, ls.len() as int).1, collect(ls, ls.len() as int).2)));
    }
    recorded
}

/// The staged files with their status letters and, for each, the patch text
/// recorded last under its path (empty when there is none).
pub fn assemble_staged_files(files: &Vec<(String, DeltaKind)>, lines: &Vec<PatchLine>) -> (r: Vec<GitFile>)
    ensures
        r@.len() == files@.len(),
        forall|i: int|
            0 <= i < files@.len() ==> {
                &&& (#[trigger] r@[i]).path@ == files@[i].0@
                &&& r@[i].status@ == status_letter(files@[i].1)
                &&& r@[i].diff@ == last_text(recorded_texts(patch_views(lines@)), files@[i].0@)
            },
{
    let recorded = collect_texts(lines);
    let ghost rv = recorded@.map_values(|p: (Vec<char>, Vec<char>)| (p.0@, p.1@));
    let mut out: Vec<GitFile> = Vec::new();
    let mut i: usize = 0;
    while i < files.len()
        invariant
            rv == recorded@.map_values(|p: (Vec<char>, Vec<char>)| (p.0@, p.1@)),
            rv == recorded_texts(patch_views(lines@)),
            i <= files@.len(),
            out@.len() == i,
            forall|k: int|
                0 <= k < i ==> {
                    &&& (#[trigger] out@[k]).path@ == files@[k].0@
                    &&& out@[k].status@ == status_letter(files@[k].1)
                    &&& out@[k].diff@ == last_text(rv, files@[k].0@)
                },
        decreases files.len() - i,
    {
        let path = str_chars(files[i].0.as_str());
        let mut j = recorded.len();
        let mut found: Option<usize> = None;
        assert(rv.take(j as int) =~= rv);
        while j > 0 && found.is_none()
            invariant
                j <= recorded@.len(),
                rv == recorded@.map_values(|p: (Vec<char>, Vec<char>)| (p.0@, p.1@)),
                found is None ==> last_text(rv.take(j as int), path@) == last_text(rv, path@),
                found matches Some(k) ==> k < recorded@.len() && rv[k as int].1 == last_text(rv, path@),
            decreases j + (if found is None { 1int } else { 0int }),
        {
            let ghost pre = rv.take(j as int);
            assert(pre.drop_last() =~= rv.take(j - 1));
            assert(pre.last() == rv[j - 1]);
            if chars_eq(&recorded[j - 1].0, &path) {
                found = Some(j - 1);
            } else {
                j = j - 1;
            }
        }
        let diff = match found {
            Some(k) => string_from_chars(&recorded[k].1),
            None => {
                assert(rv.take(0) =~= Seq::<(Seq<char>, Seq<char>)>::empty());
                string_from_chars(&Vec::new())
            },
        };
        out.push(GitFile {
            path: string_from_chars(&path),
            status: status_letter_exec(files[i].1),
            diff,
        });
        i = i + 1;
    }
    out
}

} // verus!
