//! Choosing which files of a directory are documents to ingest.
use vstd::prelude::*;

use crate::text::chars_of;

verus! {

/// A directory entry as listed: its full path, its file name, and whether it
/// is a regular file.
pub struct DirEntryInfo {
    pub path: String,
    pub name: String,
    pub is_file: bool,
}

/// The file name has the extension `pdf`: it ends in ".pdf" after a non-empty stem.
pub open spec fn pdf_name(name: Seq<char>) -> bool {
    let n = name.len() as int;
    &&& n > 4
    &&& name[n - 4] == '.'
    &&& name[n - 3] == 'p'
    &&& name[n - 2] == 'd'
    &&& name[n - 1] == 'f'
}

pub fn is_pdf_name(name: &str) -> (r: bool)
    ensures
        r == pdf_name(name@),
{
    let cs = chars_of(name);
    let n = cs.len();
    n > 4 && cs[n - 4] == '.' && cs[n - 3] == 'p' && cs[n - 2] == 'd' && cs[n - 1] == 'f'
}

/// The entry is a document to ingest.
pub open spec fn is_pdf_file(e: DirEntryInfo) -> bool {
    e.is_file && pdf_name(e.name@)
}

/// The paths of the entries that are documents, in listing order.
pub open spec fn pdf_paths(entries: Seq<DirEntryInfo>) -> Seq<Seq<char>>
    decreases entries.len(),
{
    if entries.len() == 0 {
        Seq::empty()
    } else {
        let rest = pdf_paths(entries.drop_last());
        if is_pdf_file(entries.last()) {
            rest.push(entries.last().path@)
        } else {
            rest
        }
    }
}

/// Keeps the regular files whose extension is `pdf`.
pub fn pdf_files(entries: &Vec<DirEntryInfo>) -> (r: Vec<String>)
    ensures
        r@.map_values(|s: String| s@) == pdf_paths(entries@),
{
    let mut out: Vec<String> = Vec::new();
    let n = entries.len();
    let mut i: usize = 0;
    while i < n
        invariant
            n == entries@.len(),
            i <= n,
            out@.map_values(|s: String| s@) == pdf_paths(entries@.take(i as int)),
        decreases n - i,
    {
        let ghost before = out@;
        assert(entries@.take(i as int + 1).drop_last() =~= entries@.take(i as int));
        assert(entries@.take(i as int + 1).last() == entries@[i as int]);
        let e = &entries[i];
        if e.is_file && is_pdf_name(e.name.as_str()) {
            out.push(e.path.clone());
            assert(out@.map_values(|s: String| s@) =~= before.map_values(|s: String| s@).push(
                e.path@,
            ));
        }
        i = i + 1;
    }
    assert(entries@.take(n as int) =~= entries@);
    out
}

} // verus!
