//! The search patterns that name a design's source files.
use vstd::prelude::*;

verus! {

/// The text between a source root and an extension in a search pattern:
/// any depth of directories, then any file name.
pub open spec fn any_file_below() -> Seq<char> {
    seq!['/', '*', '*', '/', '*', '.']
}

/// The pattern for files with extension `ext` anywhere below `root`.
pub open spec fn pattern_for(root: Seq<char>, ext: Seq<char>) -> Seq<char> {
    root + any_file_below() + ext
}

/// One recursive search pattern per extension, in the order given:
/// `<root>/**/*.<ext>`.
pub fn source_patterns(root: &String, extensions: &Vec<String>) -> (r: Vec<String>)
    ensures
        r@.len() == extensions@.len(),
        forall|k: int|
            0 <= k < r@.len() ==> (#[trigger] r@[k])@ == pattern_for(root@, extensions@[k]@),
{
    let mut prefix = root.clone();
    prefix.append("/**/*.");
    proof {
        reveal_strlit("/**/*.");
        assert(prefix@ == root@ + any_file_below());
    }
    let mut r: Vec<String> = Vec::new();
    let mut i: usize = 0;
    while i < extensions.len()
        invariant
            prefix@ == root@ + any_file_below(),
            i <= extensions@.len(),
            r@.len() == i,
            forall|k: int|
                0 <= k < i ==> (#[trigger] r@[k])@ == pattern_for(root@, extensions@[k]@),
        decreases extensions@.len() - i,
    {
        r.push(prefix.clone().concat(extensions[i].as_str()));
        i = i + 1;
    }
    r
}

} // verus!
