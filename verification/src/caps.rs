//! The typed capability set: per-category maps from a capability's
//! short code to its value, and the record's alias names.

use vstd::prelude::*;

verus! {

/// An insertion-ordered list of `(code, value)` entries, read in
/// contracts as a map from code to value; a later entry for a code
/// shadows an earlier one, as repeated fields in a record do.
pub struct CapMap<V> {
    entries: Vec<(String, V)>,
}

/// The map an entry list denotes: entries are inserted in order, so the
/// last entry for a code wins.
pub open spec fn entries_map<V: View>(s: Seq<(String, V)>) -> Map<Seq<char>, V::V>
    decreases s.len(),
{
    if s.len() == 0 {
        Map::<Seq<char>, V::V>::empty()
    } else {
        entries_map(s.drop_last()).insert(s.last().0@, s.last().1@)
    }
}

proof fn lemma_entries_map_absent<V: View>(s: Seq<(String, V)>, k: Seq<char>)
    requires
        forall|j: int| 0 <= j < s.len() ==> s[j].0@ != k,
    ensures
        !entries_map(s).contains_key(k),
    decreases s.len(),
{
    if s.len() > 0 {
        lemma_entries_map_absent(s.drop_last(), k);
    }
}

proof fn lemma_entries_map_found<V: View>(s: Seq<(String, V)>, k: Seq<char>, j: int)
    requires
        0 <= j < s.len(),
        s[j].0@ == k,
        forall|l: int| j < l < s.len() ==> s[l].0@ != k,
    ensures
        entries_map(s).contains_key(k),
        entries_map(s)[k] == s[j].1@,
    decreases s.len(),
{
    if j < s.len() - 1 {
        lemma_entries_map_found(s.drop_last(), k, j);
    }
}

impl<V: View> View for CapMap<V> {
    type V = Map<Seq<char>, V::V>;

    closed spec fn view(&self) -> Map<Seq<char>, V::V> {
        entries_map(self.entries@)
    }
}

impl<V: View> CapMap<V> {
    pub fn new() -> (r: Self)
        ensures
            r@ == Map::<Seq<char>, V::V>::empty(),
    {
        CapMap { entries: Vec::new() }
    }

    /// Binds `code` to `value`, shadowing any earlier binding.
    pub fn insert(&mut self, code: String, value: V)
        ensures
            final(self)@ == old(self)@.insert(code@, value@),
    {
        let ghost old_entries = self.entries@;
        self.entries.push((code, value));
        proof {
            assert(self.entries@.drop_last() =~= old_entries);
        }
    }

    /// The value bound to `code`, if any.
    pub fn get(&self, code: &str) -> (r: Option<&V>)
        ensures
            match r {
                Some(v) => self@.contains_key(code@) && v@ == self@[code@],
                None => !self@.contains_key(code@),
            },
    {
        let n = self.entries.len();
        let mut i = n;
        while i > 0
            invariant
                i <= n,
                n == self.entries.len(),
                forall|j: int| i <= j < n ==> self.entries@[j].0@ != code@,
            decreases i,
        {
            i -= 1;
            let e = &self.entries[i];
            if crate::text::str_eq(e.0.as_str(), code) {
                proof {
                    lemma_entries_map_found(self.entries@, code@, i as int);
                }
                return Some(&e.1);
            }
        }
        proof {
            lemma_entries_map_absent(self.entries@, code@);
        }
        None
    }

    /// Whether `code` is bound.
    pub fn contains(&self, code: &str) -> (r: bool)
        ensures
            r == self@.contains_key(code@),
    {
        match self.get(code) {
            Some(_) => true,
            None => false,
        }
    }
}

/// The capability set model: alias names in declaration order and one
/// map per capability category.
pub struct AbsCaps {
    pub names: Seq<Seq<char>>,
    pub booleans: Map<Seq<char>, bool>,
    pub numbers: Map<Seq<char>, u32>,
    pub strings: Map<Seq<char>, Seq<u8>>,
}

/// What a terminal supports: its alias names (the first is canonical)
/// and the decoded boolean, numeric and string capabilities, each keyed
/// by the capability's short code. A code absent from `booleans` is
/// "not asserted", never `false`.
pub struct TermCaps {
    pub names: Vec<String>,
    pub booleans: CapMap<bool>,
    pub numbers: CapMap<u32>,
    pub strings: CapMap<Vec<u8>>,
}

impl View for TermCaps {
    type V = AbsCaps;

    open spec fn view(&self) -> AbsCaps {
        AbsCaps {
            names: self.names.deep_view(),
            booleans: self.booleans@,
            numbers: self.numbers@,
            strings: self.strings@,
        }
    }
}

impl TermCaps {
    /// Whether the boolean capability `code` is asserted.
    pub fn bool_cap(&self, code: &str) -> (r: bool)
        ensures
            r == (self@.booleans.contains_key(code@) && self@.booleans[code@]),
    {
        match self.booleans.get(code) {
            Some(b) => *b,
            None => false,
        }
    }

    /// The numeric capability `code`, if the record gave one.
    pub fn num_cap(&self, code: &str) -> (r: Option<u32>)
        ensures
            match r {
                Some(v) => self@.numbers.contains_key(code@) && v == self@.numbers[code@],
                None => !self@.numbers.contains_key(code@),
            },
    {
        match self.numbers.get(code) {
            Some(v) => Some(*v),
            None => None,
        }
    }

    /// The string capability `code`, if the record gave one.
    pub fn str_cap<'a>(&'a self, code: &str) -> (r: Option<&'a Vec<u8>>)
        ensures
            match r {
                Some(v) => self@.strings.contains_key(code@) && v@ == self@.strings[code@],
                None => !self@.strings.contains_key(code@),
            },
    {
        self.strings.get(code)
    }
}

} // verus!
