//! Small association maps backed by vectors.
//!
//! Catalogs in a workbook are name keyed, column and row styles are index
//! keyed, and the cell grid is keyed by a packed coordinate.  All of them are
//! association lists whose view is a mathematical `Map`; a later entry for a
//! key overrides an earlier one, so appending is exactly a map insert.

use vstd::prelude::*;
use crate::numtext::str_eq;

verus! {

/// The map that an association list denotes: later entries win.
pub open spec fn str_as_map<V: View>(s: Seq<(String, V)>) -> Map<Seq<char>, V::V>
    decreases s.len(),
{
    if s.len() == 0 {
        Map::empty()
    } else {
        str_as_map(s.drop_last()).insert(s.last().0@, s.last().1@)
    }
}

pub open spec fn num_as_map<V: View>(s: Seq<(u64, V)>) -> Map<u64, V::V>
    decreases s.len(),
{
    if s.len() == 0 {
        Map::empty()
    } else {
        num_as_map(s.drop_last()).insert(s.last().0, s.last().1@)
    }
}

proof fn lemma_str_no_match<V: View>(s: Seq<(String, V)>, k: Seq<char>)
    requires
        forall|j: int| 0 <= j < s.len() ==> (#[trigger] s[j].0)@ != k,
    ensures
        !str_as_map(s).contains_key(k),
    decreases s.len(),
{
    if s.len() > 0 {
        lemma_str_no_match(s.drop_last(), k);
    }
}

proof fn lemma_str_last_match<V: View>(s: Seq<(String, V)>, k: Seq<char>, i: int)
    requires
        0 <= i < s.len(),
        s[i].0@ == k,
        forall|j: int| i < j < s.len() ==> (#[trigger] s[j].0)@ != k,
    ensures
        str_as_map(s).contains_key(k),
        str_as_map(s)[k] == s[i].1@,
    decreases s.len(),
{
    if i == s.len() - 1 {
    } else {
        lemma_str_last_match(s.drop_last(), k, i);
    }
}

/// Removing an entry that a later entry overrides leaves the map unchanged.
proof fn lemma_str_remove_overridden<V: View>(s: Seq<(String, V)>, i: int)
    requires
        0 <= i < s.len(),
        exists|j: int| i < j < s.len() && (#[trigger] s[j].0)@ == s[i].0@,
    ensures
        str_as_map(s.remove(i)) == str_as_map(s),
    decreases s.len(),
{
    let k = s[i].0@;
    let last = s.last();
    assert(s.len() >= 2);
    let pre = s.drop_last();
    assert(s.remove(i).drop_last() =~= pre.remove(i));
    assert(s.remove(i).last() == last);
    assert(forall|j: int| 0 <= j < pre.len() ==> pre[j] == s[j]);
    if exists|j: int| i < j < pre.len() && (#[trigger] pre[j].0)@ == k {
        lemma_str_remove_overridden(pre, i);
    } else {
        // the overriding entry is the last one
        let w = choose|j: int| i < j < s.len() && (#[trigger] s[j].0)@ == k;
        assert(i < w < s.len() && s[w].0@ == k);
        assert(w == s.len() - 1) by {
            if w < s.len() - 1 {
                assert(pre[w].0@ == k);
            }
        }
        assert(last.0@ == k);
        lemma_str_remove_last_match(pre, i);
        assert(str_as_map(s.remove(i)) =~= str_as_map(s));
        return;
    }
    assert(str_as_map(s.remove(i)) =~= str_as_map(s));
}

/// Removing the only remaining entry for its key takes the key out of the map.
proof fn lemma_str_remove_last_match<V: View>(s: Seq<(String, V)>, i: int)
    requires
        0 <= i < s.len(),
        forall|j: int| i < j < s.len() ==> (#[trigger] s[j].0)@ != s[i].0@,
    ensures
        str_as_map(s) == str_as_map(s.remove(i)).insert(s[i].0@, s[i].1@),
    decreases s.len(),
{
    let k = s[i].0@;
    if i == s.len() - 1 {
        assert(s.remove(i) =~= s.drop_last());
    } else {
        let pre = s.drop_last();
        let last = s.last();
        assert(s.remove(i).drop_last() =~= pre.remove(i));
        assert(s.remove(i).last() == last);
        lemma_str_remove_last_match(pre, i);
        assert(last.0@ != k);
        assert(str_as_map(s) =~= str_as_map(s.remove(i)).insert(k, s[i].1@));
    }
}

proof fn lemma_num_no_match<V: View>(s: Seq<(u64, V)>, k: u64)
    requires
        forall|j: int| 0 <= j < s.len() ==> (#[trigger] s[j].0) != k,
    ensures
        !num_as_map(s).contains_key(k),
    decreases s.len(),
{
    if s.len() > 0 {
        lemma_num_no_match(s.drop_last(), k);
    }
}

proof fn lemma_num_last_match<V: View>(s: Seq<(u64, V)>, k: u64, i: int)
    requires
        0 <= i < s.len(),
        s[i].0 == k,
        forall|j: int| i < j < s.len() ==> (#[trigger] s[j].0) != k,
    ensures
        num_as_map(s).contains_key(k),
        num_as_map(s)[k] == s[i].1@,
    decreases s.len(),
{
    if i == s.len() - 1 {
    } else {
        lemma_num_last_match(s.drop_last(), k, i);
    }
}

proof fn lemma_num_remove_overridden<V: View>(s: Seq<(u64, V)>, i: int)
    requires
        0 <= i < s.len(),
        exists|j: int| i < j < s.len() && (#[trigger] s[j].0) == s[i].0,
    ensures
        num_as_map(s.remove(i)) == num_as_map(s),
    decreases s.len(),
{
    let k = s[i].0;
    let last = s.last();
    assert(s.len() >= 2);
    let pre = s.drop_last();
    assert(s.remove(i).drop_last() =~= pre.remove(i));
    assert(s.remove(i).last() == last);
    assert(forall|j: int| 0 <= j < pre.len() ==> pre[j] == s[j]);
    if exists|j: int| i < j < pre.len() && (#[trigger] pre[j].0) == k {
        lemma_num_remove_overridden(pre, i);
    } else {
        let w = choose|j: int| i < j < s.len() && (#[trigger] s[j].0) == k;
        assert(i < w < s.len() && s[w].0 == k);
        assert(w == s.len() - 1) by {
            if w < s.len() - 1 {
                assert(pre[w].0 == k);
            }
        }
        assert(last.0 == k);
        lemma_num_remove_last_match(pre, i);
        assert(num_as_map(s.remove(i)) =~= num_as_map(s));
        return;
    }
    assert(num_as_map(s.remove(i)) =~= num_as_map(s));
}

proof fn lemma_num_remove_last_match<V: View>(s: Seq<(u64, V)>, i: int)
    requires
        0 <= i < s.len(),
        forall|j: int| i < j < s.len() ==> (#[trigger] s[j].0) != s[i].0,
    ensures
        num_as_map(s) == num_as_map(s.remove(i)).insert(s[i].0, s[i].1@),
    decreases s.len(),
{
    let k = s[i].0;
    if i == s.len() - 1 {
        assert(s.remove(i) =~= s.drop_last());
    } else {
        let pre = s.drop_last();
        let last = s.last();
        assert(s.remove(i).drop_last() =~= pre.remove(i));
        assert(s.remove(i).last() == last);
        lemma_num_remove_last_match(pre, i);
        assert(last.0 != k);
        assert(num_as_map(s) =~= num_as_map(s.remove(i)).insert(k, s[i].1@));
    }
}

/// A name-keyed catalog; inserting for an existing name replaces.
pub struct StrMap<V> {
    entries: Vec<(String, V)>,
}

impl<V: View> View for StrMap<V> {
    type V = Map<Seq<char>, V::V>;

    closed spec fn view(&self) -> Map<Seq<char>, V::V> {
        str_as_map(self.entries@)
    }
}

impl<V: View> StrMap<V> {
    pub fn new() -> (r: StrMap<V>)
        ensures
            r@ == Map::<Seq<char>, V::V>::empty(),
    {
        let r = StrMap { entries: Vec::new() };
        proof {
            assert(r.entries@ =~= Seq::<(String, V)>::empty());
        }
        r
    }

    pub fn insert(&mut self, k: String, v: V)
        ensures
            final(self)@ == old(self)@.insert(k@, v@),
    {
        let ghost gk = k@;
        let ghost gv = v@;
        self.entries.push((k, v));
        proof {
            assert(self.entries@.drop_last() =~= old(self).entries@);
            assert(self.entries@.last().0@ == gk);
            assert(self.entries@.last().1@ == gv);
        }
    }

    pub fn get(&self, k: &str) -> (r: Option<&V>)
        ensures
            match r {
                Some(v) => self@.contains_key(k@) && v@ == self@[k@],
                None => !self@.contains_key(k@),
            },
    {
        let mut i: usize = self.entries.len();
        while i > 0
            invariant
                0 <= i <= self.entries.len(),
                forall|j: int|
                    i <= j < self.entries.len() ==> (#[trigger] self.entries@[j].0)@ != k@,
            decreases i,
        {
            i = i - 1;
            if str_eq(self.entries[i].0.as_str(), k) {
                proof {
                    lemma_str_last_match(self.entries@, k@, i as int);
                }
                return Some(&self.entries[i].1);
            }
        }
        proof {
            lemma_str_no_match(self.entries@, k@);
        }
        None
    }

    pub fn contains(&self, k: &str) -> (r: bool)
        ensures
            r == self@.contains_key(k@),
    {
        match self.get(k) {
            Some(_) => true,
            None => false,
        }
    }

    /// Removes every entry for the name; hands back the value the map held.
    pub fn remove(&mut self, k: &str) -> (r: Option<V>)
        ensures
            final(self)@ == old(self)@.remove(k@),
            match r {
                Some(v) => old(self)@.contains_key(k@) && v@ == old(self)@[k@],
                None => !old(self)@.contains_key(k@),
            },
    {
        loop
            invariant
                str_as_map(self.entries@) == old(self)@,
            decreases self.entries.len(),
        {
            // first entry for the name, scanning forward
            let n = self.entries.len();
            let mut i: usize = 0;
            while i < n && !str_eq(self.entries[i].0.as_str(), k)
                invariant
                    0 <= i <= n == self.entries.len(),
                    forall|j: int| 0 <= j < i ==> (#[trigger] self.entries@[j].0)@ != k@,
                decreases n - i,
            {
                i = i + 1;
            }
            if i == n {
                proof {
                    lemma_str_no_match(self.entries@, k@);
                    assert(str_as_map(self.entries@) =~= old(self)@.remove(k@));
                }
                return None;
            }
            let f = i;
            // is there a later entry for the same name?
            let mut j: usize = f + 1;
            while j < n && !str_eq(self.entries[j].0.as_str(), k)
                invariant
                    f < j <= n == self.entries.len(),
                    f < n,
                    self.entries@[f as int].0@ == k@,
                    forall|l: int| f < l < j ==> (#[trigger] self.entries@[l].0)@ != k@,
                decreases n - j,
            {
                j = j + 1;
            }
            let again = j < n;
            let ghost before = self.entries@;
            if again {
                proof {
                    assert(f < j < n && before[j as int].0@ == k@);
                }
                // an overridden entry: taking it out leaves the map as it was
                let _ = self.entries.remove(f);
                proof {
                    lemma_str_remove_overridden(before, f as int);
                }
            } else {
                // the only entry for the name
                let e = self.entries.remove(f);
                proof {
                    assert(before[f as int].0@ == k@);
                    lemma_str_remove_last_match(before, f as int);
                    lemma_str_no_match(self.entries@, k@);
                    assert(str_as_map(self.entries@) =~= old(self)@.remove(k@));
                }
                return Some(e.1);
            }
        }
    }
}

proof fn lemma_num_entry_key_in_map<V: View>(s: Seq<(u64, V)>, i: int)
    requires
        0 <= i < s.len(),
    ensures
        num_as_map(s).contains_key(s[i].0),
    decreases s.len(),
{
    if i < s.len() - 1 {
        lemma_num_entry_key_in_map(s.drop_last(), i);
    }
}

/// An integer-keyed map; inserting for an existing key replaces.
pub struct NumMap<V> {
    entries: Vec<(u64, V)>,
}

impl<V: View> View for NumMap<V> {
    type V = Map<u64, V::V>;

    closed spec fn view(&self) -> Map<u64, V::V> {
        num_as_map(self.entries@)
    }
}

impl<V: View> NumMap<V> {
    pub fn new() -> (r: NumMap<V>)
        ensures
            r@ == Map::<u64, V::V>::empty(),
    {
        let r = NumMap { entries: Vec::new() };
        proof {
            assert(r.entries@ =~= Seq::<(u64, V)>::empty());
        }
        r
    }

    pub fn insert(&mut self, k: u64, v: V)
        ensures
            final(self)@ == old(self)@.insert(k, v@),
    {
        let ghost gv = v@;
        self.entries.push((k, v));
        proof {
            assert(self.entries@.drop_last() =~= old(self).entries@);
        }
    }

    /// Every key of the map, possibly more than once.
    pub fn keys(&self) -> (r: Vec<u64>)
        ensures
            forall|k: u64| r@.contains(k) <==> self@.contains_key(k),
    {
        let mut r: Vec<u64> = Vec::new();
        let mut i: usize = 0;
        while i < self.entries.len()
            invariant
                0 <= i <= self.entries.len(),
                r@.len() == i,
                forall|j: int| 0 <= j < i ==> r@.contains(#[trigger] self.entries@[j].0),
                forall|k: u64|
                    #[trigger] r@.contains(k) ==> exists|j: int|
                        0 <= j < i && (#[trigger] self.entries@[j].0) == k,
            decreases self.entries.len() - i,
        {
            let ghost prev = r@;
            r.push(self.entries[i].0);
            proof {
                assert(forall|k: u64| prev.contains(k) ==> #[trigger] r@.contains(k)) by {
                    assert(forall|j: int|
                        0 <= j < prev.len() ==> r@[j] == #[trigger] prev[j]);
                }
                assert(r@[i as int] == self.entries@[i as int].0);
                assert(r@.contains(self.entries@[i as int].0));
                assert(forall|k: u64| #[trigger] r@.contains(k) ==> prev.contains(k) || k
                    == self.entries@[i as int].0) by {
                    assert(forall|j: int| 0 <= j < prev.len() ==> r@[j] == #[trigger] prev[j]);
                }
            }
            i = i + 1;
        }
        proof {
            assert forall|k: u64| r@.contains(k) implies self@.contains_key(k) by {
                let j = choose|j: int|
                    0 <= j < self.entries@.len() && (#[trigger] self.entries@[j].0) == k;
                lemma_num_entry_key_in_map(self.entries@, j);
            }
            assert forall|k: u64| self@.contains_key(k) implies r@.contains(k) by {
                if forall|j: int|
                    0 <= j < self.entries@.len() ==> (#[trigger] self.entries@[j].0) != k {
                    lemma_num_no_match(self.entries@, k);
                }
                let j = choose|j: int|
                    0 <= j < self.entries@.len() && (#[trigger] self.entries@[j].0) == k;
                assert(r@.contains(self.entries@[j].0));
            }
        }
        r
    }

    pub fn get(&self, k: u64) -> (r: Option<&V>)
        ensures
            match r {
                Some(v) => self@.contains_key(k) && v@ == self@[k],
                None => !self@.contains_key(k),
            },
    {
        let mut i: usize = self.entries.len();
        while i > 0
            invariant
                0 <= i <= self.entries.len(),
                forall|j: int|
                    i <= j < self.entries.len() ==> (#[trigger] self.entries@[j].0) != k,
            decreases i,
        {
            i = i - 1;
            if self.entries[i].0 == k {
                proof {
                    lemma_num_last_match(self.entries@, k, i as int);
                }
                return Some(&self.entries[i].1);
            }
        }
        proof {
            lemma_num_no_match(self.entries@, k);
        }
        None
    }

    /// Removes every entry for the key; hands back the value the map held.
    pub fn remove(&mut self, k: u64) -> (r: Option<V>)
        ensures
            final(self)@ == old(self)@.remove(k),
            match r {
                Some(v) => old(self)@.contains_key(k) && v@ == old(self)@[k],
                None => !old(self)@.contains_key(k),
            },
    {
        loop
            invariant
                num_as_map(self.entries@) == old(self)@,
            decreases self.entries.len(),
        {
            let n = self.entries.len();
            let mut i: usize = 0;
            while i < n && self.entries[i].0 != k
                invariant
                    0 <= i <= n == self.entries.len(),
                    forall|j: int| 0 <= j < i ==> (#[trigger] self.entries@[j].0) != k,
                decreases n - i,
            {
                i = i + 1;
            }
            if i == n {
                proof {
                    lemma_num_no_match(self.entries@, k);
                    assert(num_as_map(self.entries@) =~= old(self)@.remove(k));
                }
                return None;
            }
            let f = i;
            let mut j: usize = f + 1;
            while j < n && self.entries[j].0 != k
                invariant
                    f < j <= n == self.entries.len(),
                    f < n,
                    self.entries@[f as int].0 == k,
                    forall|l: int| f < l < j ==> (#[trigger] self.entries@[l].0) != k,
                decreases n - j,
            {
                j = j + 1;
            }
            let again = j < n;
            let ghost before = self.entries@;
            if again {
                proof {
                    assert(f < j < n && before[j as int].0 == k);
                }
                let _ = self.entries.remove(f);
                proof {
                    lemma_num_remove_overridden(before, f as int);
                }
            } else {
                let e = self.entries.remove(f);
                proof {
                    assert(before[f as int].0 == k);
                    lemma_num_remove_last_match(before, f as int);
                    lemma_num_no_match(self.entries@, k);
                    assert(num_as_map(self.entries@) =~= old(self)@.remove(k));
                }
                return Some(e.1);
            }
        }
    }
}

} // verus!
