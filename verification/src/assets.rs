//! The asset table: an in-memory mapping from relative path to file content.
//!
//! The table is filled once, when the process starts, and only read
//! afterwards. Its model is a finite map from path to [`Asset`].

use vstd::prelude::*;

use crate::mime::{guess_media_type, guessed_media_type};
use crate::path::same_text;

verus! {

/// What the table holds under one path: the file's bytes and its media type.
pub ghost struct Asset {
    pub bytes: Seq<u8>,
    pub media_type: Seq<char>,
}

/// The model of an asset table.
pub type Assets = Map<Seq<char>, Asset>;

/// One file of the bundle.
#[derive(Debug, Clone, PartialEq, Eq)]
pub struct AssetEntry {
    /// Path relative to the bundle's root, with `/` between its segments.
    pub path: String,
    /// The file's content.
    pub bytes: Vec<u8>,
    /// The media type the file is served with.
    pub media_type: String,
}

impl AssetEntry {
    /// The asset that this entry stores under its path.
    pub open spec fn asset(&self) -> Asset {
        Asset { bytes: self.bytes@, media_type: self.media_type@ }
    }

    /// An entry whose media type is inferred from the extension of `path`.
    pub fn new(path: String, bytes: Vec<u8>) -> (entry: AssetEntry)
        ensures
            entry.path@ == path@,
            entry.bytes@ == bytes@,
            entry.media_type@ == guessed_media_type(path@),
    {
        let media_type = guess_media_type(path.as_str());
        AssetEntry { path, bytes, media_type }
    }

    /// An entry with the media type given by the caller.
    pub fn with_media_type(path: String, bytes: Vec<u8>, media_type: String) -> (entry: AssetEntry)
        ensures
            entry.path@ == path@,
            entry.bytes@ == bytes@,
            entry.media_type@ == media_type@,
    {
        AssetEntry { path, bytes, media_type }
    }
}

/// Whether no path occurs twice among `entries`.
spec fn distinct_paths(entries: Seq<AssetEntry>) -> bool {
    forall|i: int, j: int|
        0 <= i < j < entries.len() ==> (#[trigger] entries[i]).path@ != (#[trigger] entries[j]).path@
}

/// Whether `entries` holds an entry for `path`.
spec fn has_path(entries: Seq<AssetEntry>, path: Seq<char>) -> bool {
    exists|i: int| 0 <= i < entries.len() && (#[trigger] entries[i]).path@ == path
}

/// The position of the entry for `path`, where there is one.
spec fn position_of(entries: Seq<AssetEntry>, path: Seq<char>) -> int {
    choose|i: int| 0 <= i < entries.len() && (#[trigger] entries[i]).path@ == path
}

/// The map that a sequence of entries with distinct paths stands for.
spec fn assets_of(entries: Seq<AssetEntry>) -> Assets {
    Map::new(
        |path: Seq<char>| has_path(entries, path),
        |path: Seq<char>| entries[position_of(entries, path)].asset(),
    )
}

/// The asset table.
#[derive(Debug)]
pub struct AssetTable {
    entries: Vec<AssetEntry>,
}

impl View for AssetTable {
    type V = Assets;

    closed spec fn view(&self) -> Assets {
        assets_of(self.entries@)
    }
}

impl AssetTable {
    #[verifier::type_invariant]
    spec fn well_formed(&self) -> bool {
        distinct_paths(self.entries@)
    }

    /// The empty table.
    pub fn new() -> (table: AssetTable)
        ensures
            table@ == Assets::empty(),
    {
        let table = AssetTable { entries: Vec::new() };
        assert(table@ =~= Assets::empty());
        table
    }

    /// The number of paths in the table.
    pub fn len(&self) -> (count: usize)
        ensures
            self@.dom().finite(),
            count == self@.dom().len(),
    {
        proof {
            use_type_invariant(self);
            lemma_domain_size(self.entries@);
        }
        self.entries.len()
    }

    /// Whether the table holds no path.
    pub fn is_empty(&self) -> (empty: bool)
        ensures
            empty == (self@ == Assets::empty()),
    {
        let empty = self.entries.len() == 0;
        proof {
            if empty {
                assert(self@ =~= Assets::empty());
            } else {
                assert(has_path(self.entries@, self.entries@[0].path@));
                assert(self@.dom().contains(self.entries@[0].path@));
            }
        }
        empty
    }

    /// The position of the entry for `path`, if the table has one.
    fn find(&self, path: &str) -> (position: Option<usize>)
        ensures
            match position {
                Some(i) => i < self.entries@.len() && self.entries@[i as int].path@ == path@,
                None => !has_path(self.entries@, path@),
            },
    {
        let mut i: usize = 0;
        while i < self.entries.len()
            invariant
                i <= self.entries@.len(),
                forall|j: int| 0 <= j < i ==> (#[trigger] self.entries@[j]).path@ != path@,
            decreases self.entries@.len() - i,
        {
            if same_text(self.entries[i].path.as_str(), path) {
                return Some(i);
            }
            i += 1;
        }
        None
    }

    /// The entry stored under `path`, or `None` where the table has none.
    pub fn get(&self, path: &str) -> (found: Option<&AssetEntry>)
        ensures
            found is Some <==> self@.contains_key(path@),
            found matches Some(entry) ==> entry.path@ == path@ && entry.asset() == self@[path@],
    {
        proof {
            use_type_invariant(self);
        }
        match self.find(path) {
            Some(i) => {
                proof {
                    lemma_position(self.entries@, i as int);
                }
                Some(&self.entries[i])
            },
            None => None,
        }
    }

    /// Whether the table holds an entry for `path`.
    pub fn contains(&self, path: &str) -> (present: bool)
        ensures
            present == self@.contains_key(path@),
    {
        self.find(path).is_some()
    }

    /// Stores `entry` under its path, in place of an entry that was there.
    pub fn put(&mut self, entry: AssetEntry)
        ensures
            final(self)@ == old(self)@.insert(entry.path@, entry.asset()),
    {
        proof {
            use_type_invariant(&*self);
        }
        let position = self.find(entry.path.as_str());
        // The entries are edited outside the table, so that the table holds
        // distinct paths at every moment.
        let mut entries: Vec<AssetEntry> = Vec::new();
        std::mem::swap(&mut entries, &mut self.entries);
        let ghost before = entries@;
        match position {
            Some(i) => {
                proof {
                    lemma_replace(before, i as int, entry);
                }
                entries.set(i, entry);
            },
            None => {
                proof {
                    lemma_append(before, entry);
                }
                entries.push(entry);
            },
        }
        self.entries = entries;
    }

    /// Stores `bytes` under `path`, with the media type inferred from the
    /// extension of `path`, in place of an entry that was there.
    pub fn insert(&mut self, path: String, bytes: Vec<u8>)
        ensures
            final(self)@ == old(self)@.insert(
                path@,
                Asset { bytes: bytes@, media_type: guessed_media_type(path@) },
            ),
    {
        self.put(AssetEntry::new(path, bytes));
    }
}

/// With distinct paths, the entry at position `i` is the one its path maps to.
proof fn lemma_position(entries: Seq<AssetEntry>, i: int)
    requires
        distinct_paths(entries),
        0 <= i < entries.len(),
    ensures
        assets_of(entries).contains_key(entries[i].path@),
        assets_of(entries)[entries[i].path@] == entries[i].asset(),
{
    let path = entries[i].path@;
    assert(has_path(entries, path));
    let k = position_of(entries, path);
    assert(entries[k].path@ == path);
    assert(k == i);
}

/// Replacing the entry at position `i` by one with the same path updates the
/// map at that path.
proof fn lemma_replace(entries: Seq<AssetEntry>, i: int, entry: AssetEntry)
    requires
        distinct_paths(entries),
        0 <= i < entries.len(),
        entries[i].path@ == entry.path@,
    ensures
        distinct_paths(entries.update(i, entry)),
        assets_of(entries.update(i, entry)) == assets_of(entries).insert(entry.path@, entry.asset()),
{
    let after = entries.update(i, entry);
    assert(distinct_paths(after)) by {
        assert forall|a: int, b: int| 0 <= a < b < after.len() implies (#[trigger] after[a]).path@
            != (#[trigger] after[b]).path@ by {
            assert(after[a].path@ == entries[a].path@);
            assert(after[b].path@ == entries[b].path@);
        }
    }
    let expected = assets_of(entries).insert(entry.path@, entry.asset());
    assert forall|path: Seq<char>| assets_of(after).contains_key(path) == expected.contains_key(
        path,
    ) by {
        if has_path(after, path) {
            let k = position_of(after, path);
            assert(entries[k].path@ == path);
        }
        if has_path(entries, path) {
            let k = position_of(entries, path);
            assert(after[k].path@ == path);
        }
        assert(after[i].path@ == entry.path@);
    }
    assert forall|path: Seq<char>| assets_of(after).contains_key(path) implies assets_of(
        after,
    )[path] == expected[path] by {
        let k = position_of(after, path);
        lemma_position(after, k);
        if k != i {
            assert(entries[k].path@ == path);
            lemma_position(entries, k);
        }
    }
    assert(assets_of(after) =~= expected);
}

/// Appending an entry whose path is new adds its path to the map.
proof fn lemma_append(entries: Seq<AssetEntry>, entry: AssetEntry)
    requires
        distinct_paths(entries),
        !has_path(entries, entry.path@),
    ensures
        distinct_paths(entries.push(entry)),
        assets_of(entries.push(entry)) == assets_of(entries).insert(entry.path@, entry.asset()),
{
    let after = entries.push(entry);
    let last = entries.len() as int;
    assert(distinct_paths(after)) by {
        assert forall|a: int, b: int| 0 <= a < b < after.len() implies (#[trigger] after[a]).path@
            != (#[trigger] after[b]).path@ by {
            assert(after[a] == entries[a]);
            if b < last {
                assert(after[b] == entries[b]);
            }
        }
    }
    let expected = assets_of(entries).insert(entry.path@, entry.asset());
    assert forall|path: Seq<char>| assets_of(after).contains_key(path) == expected.contains_key(
        path,
    ) by {
        if has_path(after, path) {
            let k = position_of(after, path);
            if k < last {
                assert(entries[k].path@ == path);
            }
        }
        if has_path(entries, path) {
            let k = position_of(entries, path);
            assert(after[k].path@ == path);
        }
        assert(after[last].path@ == entry.path@);
    }
    assert forall|path: Seq<char>| assets_of(after).contains_key(path) implies assets_of(
        after,
    )[path] == expected[path] by {
        let k = position_of(after, path);
        lemma_position(after, k);
        if k < last {
            assert(entries[k].path@ == path);
            lemma_position(entries, k);
        }
    }
    assert(assets_of(after) =~= expected);
}

/// With distinct paths, the map has as many keys as there are entries.
proof fn lemma_domain_size(entries: Seq<AssetEntry>)
    requires
        distinct_paths(entries),
    ensures
        assets_of(entries).dom().finite(),
        assets_of(entries).dom().len() == entries.len(),
    decreases entries.len(),
{
    if entries.len() == 0 {
        assert(assets_of(entries).dom() =~= Set::<Seq<char>>::empty());
    } else {
        let front = entries.drop_last();
        let entry = entries.last();
        assert(distinct_paths(front)) by {
            assert forall|a: int, b: int| 0 <= a < b < front.len() implies (#[trigger] front[a]).path@
                != (#[trigger] front[b]).path@ by {
                assert(front[a] == entries[a]);
                assert(front[b] == entries[b]);
            }
        }
        assert(!has_path(front, entry.path@)) by {
            if has_path(front, entry.path@) {
                let k = position_of(front, entry.path@);
                assert(front[k] == entries[k]);
                assert(entries[entries.len() - 1] == entry);
            }
        }
        lemma_domain_size(front);
        lemma_append(front, entry);
        assert(front.push(entry) =~= entries);
        assert(assets_of(entries).dom() =~= assets_of(front).dom().insert(entry.path@));
    }
}

} // verus!
