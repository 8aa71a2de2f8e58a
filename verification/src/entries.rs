//! The staged files of a generated repository: an insertion-ordered map
//! from each file's path, relative to the repository root, to its text and
//! its path on disk.

use vstd::prelude::*;
use indexmap::IndexMap;
use std::path::PathBuf;

verus! {

#[verifier::external_type_specification]
#[verifier::external_body]
#[verifier::reject_recursive_types(K)]
#[verifier::reject_recursive_types(V)]
#[verifier::reject_recursive_types(S)]
pub struct ExIndexMap<K, V, S>(IndexMap<K, V, S>);

#[verifier::external_type_specification]
#[verifier::external_body]
pub struct ExPathBuf(PathBuf);

/// What a staged-file map holds, in its order: each file's key and text.
/// (The path on disk stored beside the text is not part of this view.)
pub uninterp spec fn staged_entries(map: IndexMap<String, (String, PathBuf)>) -> Seq<(Seq<char>, Seq<char>)>;

/// No two entries have the same key.
pub open spec fn distinct_keys(entries: Seq<(Seq<char>, Seq<char>)>) -> bool {
    forall|i: int, j: int| 0 <= i < j < entries.len() ==> (#[trigger] entries[i]).0 != (#[trigger] entries[j]).0
}

/// The entries after `key` is given the text `text`: an entry with that key
/// keeps its place and takes the new text; otherwise a new entry goes last.
pub open spec fn inserted(
    old: Seq<(Seq<char>, Seq<char>)>,
    new: Seq<(Seq<char>, Seq<char>)>,
    key: Seq<char>,
    text: Seq<char>,
) -> bool {
    if exists|i: int| 0 <= i < old.len() && (#[trigger] old[i]).0 == key {
        exists|i: int| 0 <= i < old.len() && (#[trigger] old[i]).0 == key && new == old.update(i, (key, text))
    } else {
        new == old.push((key, text))
    }
}

/// `IndexMap::insert`: an existing key keeps its place in the order and
/// takes the new value; a new key is inserted last. Keys of an `IndexMap`
/// are always distinct.
#[verifier::external_body]
fn index_map_insert(map: &mut IndexMap<String, (String, PathBuf)>, key: String, value: (String, PathBuf))
    ensures
        distinct_keys(staged_entries(*final(map))),
        inserted(staged_entries(*old(map)), staged_entries(*final(map)), key@, value.0@),
{
    map.insert(key, value);
}

/// Stages a file read from a template tree: its text and its path on disk,
/// under `key`, its path relative to the root of the tree.
pub fn stage_file(entries: &mut IndexMap<String, (String, PathBuf)>, key: String, content: String, path: PathBuf)
    ensures
        distinct_keys(staged_entries(*final(entries))),
        inserted(staged_entries(*old(entries)), staged_entries(*final(entries)), key@, content@),
{
    index_map_insert(entries, key, (content, path));
}

/// Staging the same key twice leaves one entry for it, with the second
/// text, where the first one put it.
pub proof fn lemma_restage_keeps_place(
    e0: Seq<(Seq<char>, Seq<char>)>,
    e1: Seq<(Seq<char>, Seq<char>)>,
    e2: Seq<(Seq<char>, Seq<char>)>,
    key: Seq<char>,
    t1: Seq<char>,
    t2: Seq<char>,
)
    requires
        distinct_keys(e0),
        distinct_keys(e1),
        inserted(e0, e1, key, t1),
        inserted(e1, e2, key, t2),
    ensures
        e2.len() == e1.len(),
        exists|i: int| 0 <= i < e1.len() && e1[i] == (key, t1) && e2 == e1.update(i, (key, t2)),
{
    if exists|i: int| 0 <= i < e0.len() && (#[trigger] e0[i]).0 == key {
        let i = choose|i: int| 0 <= i < e0.len() && (#[trigger] e0[i]).0 == key && e1 == e0.update(i, (key, t1));
        assert(e1[i].0 == key);
        let j = choose|j: int| 0 <= j < e1.len() && (#[trigger] e1[j]).0 == key && e2 == e1.update(j, (key, t2));
        assert(e1[i] == (key, t1));
        assert(i == j);
    } else {
        assert(e1 == e0.push((key, t1)));
        let n = e0.len() as int;
        assert(e1[n].0 == key);
        let j = choose|j: int| 0 <= j < e1.len() && (#[trigger] e1[j]).0 == key && e2 == e1.update(j, (key, t2));
        assert(j == n);
    }
}

} // verus!
