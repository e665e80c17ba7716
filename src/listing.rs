//! Enumeration of the instances of a workspace from the entries of its
//! instance directory.

use vstd::prelude::*;

verus! {

/// An entry of the instance directory.
pub struct DirEntry {
    pub name: String,
    pub is_dir: bool,
}

/// Names of the entries that are directories, in order.
pub open spec fn dir_names(entries: Seq<DirEntry>) -> Seq<Seq<char>>
    decreases entries.len(),
{
    if entries.len() == 0 {
        Seq::empty()
    } else {
        let rest = dir_names(entries.drop_last());
        if entries.last().is_dir {
            rest.push(entries.last().name@)
        } else {
            rest
        }
    }
}

/// List the instances among the entries of the instance directory: the
/// names of its subdirectories, in the order given.
pub fn list_instances_simple(entries: &Vec<DirEntry>) -> (r: Vec<String>)
    ensures
        r@.len() == dir_names(entries@).len(),
        forall|i: int| 0 <= i < r@.len() ==> #[trigger] r@[i]@ == dir_names(entries@)[i],
{
    let mut out: Vec<String> = Vec::new();
    let mut i: usize = 0;
    while i < entries.len()
        invariant
            i <= entries@.len(),
            out@.len() == dir_names(entries@.subrange(0, i as int)).len(),
            forall|j: int|
                0 <= j < out@.len() ==> #[trigger] out@[j]@ == dir_names(
                    entries@.subrange(0, i as int),
                )[j],
        decreases entries@.len() - i,
    {
        assert(entries@.subrange(0, i + 1).drop_last() =~= entries@.subrange(0, i as int));
        if entries[i].is_dir {
            out.push(entries[i].name.clone());
        }
        i = i + 1;
    }
    assert(entries@.subrange(0, i as int) =~= entries@);
    out
}

} // verus!
