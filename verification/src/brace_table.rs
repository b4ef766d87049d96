//! A table from macro names to the brace pair each macro is to be written
//! with. It holds its entries in a `Vec` in which no name occurs twice and
//! is viewed as a `Map` from names to brace pairs.
use vstd::prelude::*;
use vstd::utf8::encode_utf8;

use crate::text::same_text;

verus! {

/// An opening and a closing bracket.
pub type Braces = (char, char);

/// The map that a list of (name, braces) entries describes, later entries
/// taking precedence over earlier ones with the same name.
pub open spec fn entries_map(entries: Seq<(String, Braces)>) -> Map<Seq<char>, Braces>
    decreases entries.len(),
{
    if entries.len() == 0 {
        Map::empty()
    } else {
        entries_map(entries.drop_last()).insert(entries.last().0@, entries.last().1)
    }
}

/// No name occurs twice among the entries.
pub open spec fn distinct_names(entries: Seq<(String, Braces)>) -> bool {
    forall|i: int, j: int| 0 <= i < j < entries.len() ==> entries[i].0@ != entries[j].0@
}

/// Length in bytes of the UTF-8 encoding of a name, as `str::len` gives it.
pub open spec fn name_len(name: Seq<char>) -> usize {
    encode_utf8(name).len() as usize
}

/// `n` is the largest of `floor` and the byte lengths of `names`.
pub open spec fn is_max_name_len(names: Set<Seq<char>>, floor: usize, n: usize) -> bool {
    &&& floor <= n
    &&& forall|k: Seq<char>| names.contains(k) ==> name_len(k) <= n
    &&& (n == floor || exists|k: Seq<char>| names.contains(k) && name_len(k) == n)
}

/// A name is a key of the map exactly when some entry carries it.
pub proof fn lemma_entries_map_keys(entries: Seq<(String, Braces)>, k: Seq<char>)
    ensures
        entries_map(entries).contains_key(k) <==> exists|i: int|
            0 <= i < entries.len() && entries[i].0@ == k,
    decreases entries.len(),
{
    if entries.len() > 0 {
        let rest = entries.drop_last();
        lemma_entries_map_keys(rest, k);
        if entries_map(entries).contains_key(k) && entries.last().0@ != k {
            let i = choose|i: int| 0 <= i < rest.len() && rest[i].0@ == k;
            assert(entries[i].0@ == k);
        }
        if exists|i: int| 0 <= i < entries.len() && entries[i].0@ == k {
            let i = choose|i: int| 0 <= i < entries.len() && entries[i].0@ == k;
            if i < entries.len() - 1 {
                assert(rest[i].0@ == k);
            }
        }
    }
}

/// With distinct names, the map gives each entry's name that entry's braces.
pub proof fn lemma_entries_map_value(entries: Seq<(String, Braces)>, i: int)
    requires
        distinct_names(entries),
        0 <= i < entries.len(),
    ensures
        entries_map(entries).contains_key(entries[i].0@),
        entries_map(entries)[entries[i].0@] == entries[i].1,
    decreases entries.len(),
{
    if i < entries.len() - 1 {
        let rest = entries.drop_last();
        assert(rest[i] == entries[i]);
        lemma_entries_map_value(rest, i);
    }
}

/// Replacing the braces of entry `i`, under the same name, updates the map
/// at that name.
pub proof fn lemma_entries_map_update(
    entries: Seq<(String, Braces)>,
    i: int,
    entry: (String, Braces),
)
    requires
        distinct_names(entries),
        0 <= i < entries.len(),
        entry.0@ == entries[i].0@,
    ensures
        entries_map(entries.update(i, entry)) =~= entries_map(entries).insert(entry.0@, entry.1),
    decreases entries.len(),
{
    let updated = entries.update(i, entry);
    let rest = entries.drop_last();
    if i == entries.len() - 1 {
        assert(updated.drop_last() =~= rest);
    } else {
        assert(updated.drop_last() =~= rest.update(i, entry));
        lemma_entries_map_update(rest, i, entry);
        assert(entries.last().0@ != entry.0@);
    }
}

/// Brace pairs by macro name.
pub struct BraceTable {
    entries: Vec<(String, Braces)>,
}

impl View for BraceTable {
    type V = Map<Seq<char>, Braces>;

    closed spec fn view(&self) -> Map<Seq<char>, Braces> {
        entries_map(self.entries@)
    }
}

impl BraceTable {
    /// The table's entries hold no name twice.
    pub closed spec fn wf(&self) -> bool {
        distinct_names(self.entries@)
    }

    /// An empty table.
    pub fn new() -> (table: Self)
        ensures
            table.wf(),
            table@ == Map::<Seq<char>, Braces>::empty(),
    {
        BraceTable { entries: Vec::new() }
    }

    /// Sets the braces of `name`, replacing those it had.
    pub fn insert(&mut self, name: String, braces: Braces)
        requires
            old(self).wf(),
        ensures
            final(self).wf(),
            final(self)@ == old(self)@.insert(name@, braces),
    {
        let len = self.entries.len();
        let mut i: usize = 0;
        while i < len
            invariant
                len == self.entries@.len(),
                i <= len,
                self.entries@ == old(self).entries@,
                distinct_names(self.entries@),
                forall|j: int| 0 <= j < i ==> self.entries@[j].0@ != name@,
            decreases len - i,
        {
            if same_text(self.entries[i].0.as_str(), name.as_str()) {
                let ghost before = self.entries@;
                let entry = (name, braces);
                proof {
                    lemma_entries_map_update(before, i as int, entry);
                }
                self.entries.set(i, entry);
                assert(self.entries@ == before.update(i as int, entry));
                assert(distinct_names(self.entries@)) by {
                    assert forall|a: int, b: int| 0 <= a < b < len implies self.entries@[a].0@
                        != self.entries@[b].0@ by {
                        if a != i && b != i {
                            assert(before[a].0@ != before[b].0@);
                        } else if a == i {
                            assert(before[i as int].0@ != before[b].0@);
                        } else {
                            assert(before[a].0@ != before[i as int].0@);
                        }
                    }
                }
                return;
            }
            i = i + 1;
        }
        let ghost before = self.entries@;
        self.entries.push((name, braces));
        assert(self.entries@.drop_last() =~= before);
    }

    /// The braces of `name`, if the table has it.
    pub fn get(&self, name: &str) -> (res: Option<Braces>)
        requires
            self.wf(),
        ensures
            res == (if self@.contains_key(name@) {
                Some(self@[name@])
            } else {
                None::<Braces>
            }),
    {
        let len = self.entries.len();
        let mut i: usize = 0;
        while i < len
            invariant
                len == self.entries@.len(),
                i <= len,
                forall|j: int| 0 <= j < i ==> self.entries@[j].0@ != name@,
                distinct_names(self.entries@),
            decreases len - i,
        {
            if same_text(self.entries[i].0.as_str(), name) {
                proof {
                    lemma_entries_map_value(self.entries@, i as int);
                }
                return Some(self.entries[i].1);
            }
            i = i + 1;
        }
        proof {
            lemma_entries_map_keys(self.entries@, name@);
        }
        None
    }

    /// The largest of `floor` and the byte lengths of the table's names.
    pub fn max_name_len(&self, floor: usize) -> (n: usize)
        ensures
            is_max_name_len(self@.dom(), floor, n),
    {
        let len = self.entries.len();
        let mut n = floor;
        let mut i: usize = 0;
        while i < len
            invariant
                len == self.entries@.len(),
                i <= len,
                floor <= n,
                forall|j: int| 0 <= j < i ==> name_len(self.entries@[j].0@) <= n,
                n == floor || exists|j: int| 0 <= j < i && name_len(self.entries@[j].0@) == n,
            decreases len - i,
        {
            let l = self.entries[i].0.as_str().len();
            if l > n {
                n = l;
            }
            i = i + 1;
        }
        assert forall|k: Seq<char>| self@.dom().contains(k) implies name_len(k) <= n by {
            lemma_entries_map_keys(self.entries@, k);
        }
        proof {
            if n != floor {
                let j = choose|j: int| 0 <= j < len && name_len(self.entries@[j].0@) == n;
                lemma_entries_map_keys(self.entries@, self.entries@[j].0@);
                assert(self@.dom().contains(self.entries@[j].0@));
            }
        }
        n
    }
}

} // verus!
