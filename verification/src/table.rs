//! A small string-keyed table with a mathematical `Map` view. One type serves
//! three roles in a render pass: the procedure table, the build-time
//! environment, and the store of spliceable file contents. Insertion order is
//! kept internally; a later insert for the same key wins, exactly as
//! `Map::insert` says.

use vstd::prelude::*;

verus! {

/// The map denoted by a sequence of key/value pairs: later pairs win.
pub open spec fn pairs_map(s: Seq<(String, String)>) -> Map<Seq<char>, Seq<char>>
    decreases s.len(),
{
    if s.len() == 0 {
        Map::empty()
    } else {
        pairs_map(s.drop_last()).insert(s.last().0@, s.last().1@)
    }
}

/// A string-keyed, string-valued table, viewed as a `Map<Seq<char>, Seq<char>>`.
pub struct Table {
    entries: Vec<(String, String)>,
}

/// Entries at index `i` and beyond never use the key `k`.
spec fn key_absent_from(s: Seq<(String, String)>, k: Seq<char>, i: int) -> bool {
    forall|j: int| i <= j < s.len() ==> #[trigger] s[j].0@ != k
}

/// If no entry at index `i` or beyond carries the key, the table's map and the
/// map of the first `i` entries agree on that key.
proof fn lemma_pairs_map_skip(s: Seq<(String, String)>, k: Seq<char>, i: int)
    requires
        0 <= i <= s.len(),
        key_absent_from(s, k, i),
    ensures
        pairs_map(s).contains_key(k) == pairs_map(s.take(i)).contains_key(k),
        pairs_map(s).contains_key(k) ==> pairs_map(s)[k] == pairs_map(s.take(i))[k],
    decreases s.len() - i,
{
    if i == s.len() {
        assert(s.take(i) =~= s);
    } else {
        lemma_pairs_map_skip(s, k, i + 1);
        assert(s.take(i + 1).drop_last() =~= s.take(i));
        assert(s.take(i + 1).last() == s[i]);
        assert(pairs_map(s.take(i + 1)) == pairs_map(s.take(i)).insert(s[i].0@, s[i].1@));
    }
}

impl View for Table {
    type V = Map<Seq<char>, Seq<char>>;

    closed spec fn view(&self) -> Map<Seq<char>, Seq<char>> {
        pairs_map(self.entries@)
    }
}

impl Table {
    /// An empty table.
    pub fn new() -> (r: Table)
        ensures
            r@ == Map::<Seq<char>, Seq<char>>::empty(),
    {
        Table { entries: Vec::new() }
    }

    /// Bind `key` to `value`, shadowing any earlier binding of the same key.
    pub fn insert(&mut self, key: String, value: String)
        ensures
            final(self)@ == old(self)@.insert(key@, value@),
    {
        let ghost old_entries = self.entries@;
        let ghost k = key@;
        let ghost v = value@;
        self.entries.push((key, value));
        proof {
            assert(self.entries@.drop_last() =~= old_entries);
            assert(pairs_map(self.entries@) == pairs_map(old_entries).insert(k, v));
        }
    }

    /// Look the key up; `Some` exactly when the table's map contains it, and
    /// then the value is the map's value.
    pub fn get(&self, key: &String) -> (r: Option<&String>)
        ensures
            r is Some <==> self@.contains_key(key@),
            r is Some ==> r.unwrap()@ == self@[key@],
    {
        let mut i: usize = self.entries.len();
        while i > 0
            invariant
                i <= self.entries@.len(),
                key_absent_from(self.entries@, key@, i as int),
            decreases i,
        {
            i = i - 1;
            if crate::text::str_eq(self.entries[i].0.as_str(), key.as_str()) {
                proof {
                    let s = self.entries@;
                    lemma_pairs_map_skip(s, key@, i + 1);
                    assert(s.take(i + 1).drop_last() =~= s.take(i as int));
                    assert(s.take(i + 1).last() == s[i as int]);
                    assert(pairs_map(s.take(i + 1))
                        == pairs_map(s.take(i as int)).insert(s[i as int].0@, s[i as int].1@));
                    assert(pairs_map(s.take(i + 1)).contains_key(key@));
                    assert(pairs_map(s.take(i + 1))[key@] == s[i as int].1@);
                }
                return Some(&self.entries[i].1);
            }
            proof {
                let s = self.entries@;
                assert forall|j: int| i <= j < s.len() implies #[trigger] s[j].0@ != key@ by {
                    if j > i {
                        assert(s[j].0@ != key@);
                    }
                }
            }
        }
        proof {
            lemma_pairs_map_skip(self.entries@, key@, 0);
            assert(self.entries@.take(0) =~= Seq::<(String, String)>::empty());
        }
        None
    }

    /// Whether the table binds the key.
    pub fn contains(&self, key: &String) -> (r: bool)
        ensures
            r == self@.contains_key(key@),
    {
        self.get(key).is_some()
    }
}

} // verus!
