//! The directory of named links that the site shows.

use vstd::prelude::*;

verus! {

/// No name occurs twice.
pub open spec fn names_unique(s: Seq<(Seq<char>, Seq<char>)>) -> bool {
    forall|i: int, j: int|
        0 <= i < j < s.len() ==> #[trigger] s[i].0 != #[trigger] s[j].0
}

/// Where `k` stands among the names, if it does.
pub open spec fn entry_index(s: Seq<(Seq<char>, Seq<char>)>, k: Seq<char>) -> Option<int> {
    if exists|i: int| 0 <= i < s.len() && #[trigger] s[i].0 == k {
        Some(choose|i: int| 0 <= i < s.len() && #[trigger] s[i].0 == k)
    } else {
        None
    }
}

/// Links by name: each name bound to one URL, in the order in which the
/// names were first added.
#[derive(Debug)]
pub struct Entries {
    entries: Vec<(String, String)>,
}

impl View for Entries {
    type V = Seq<(Seq<char>, Seq<char>)>;

    closed spec fn view(&self) -> Seq<(Seq<char>, Seq<char>)> {
        self.entries@.map_values(|e: (String, String)| (e.0@, e.1@))
    }
}

impl Entries {
    pub open spec fn wf(&self) -> bool {
        names_unique(self@)
    }

    /// No links.
    pub fn new() -> (r: Entries)
        ensures
            r@ == Seq::<(Seq<char>, Seq<char>)>::empty(),
            r.wf(),
    {
        let r = Entries { entries: Vec::new() };
        assert(r@ =~= Seq::<(Seq<char>, Seq<char>)>::empty());
        r
    }

    /// The number of links.
    pub fn len(&self) -> (r: usize)
        ensures
            r == self@.len(),
    {
        self.entries.len()
    }

    /// The `i`-th name and its URL.
    pub fn entry(&self, i: usize) -> (r: (&String, &String))
        requires
            i < self@.len(),
        ensures
            (r.0@, r.1@) == self@[i as int],
    {
        let e = &self.entries[i];
        (&e.0, &e.1)
    }

    /// Binds `name` to `url`; a name that was bound keeps its place and gets
    /// the new URL, a new name goes last.
    pub fn insert(&mut self, name: String, url: String)
        requires
            old(self).wf(),
        ensures
            final(self).wf(),
            match entry_index(old(self)@, name@) {
                Some(i) => final(self)@ == old(self)@.update(i, (name@, url@)),
                None => final(self)@ == old(self)@.push((name@, url@)),
            },
    {
        let ghost k = name@;
        let ghost u = url@;
        match self.position(&name) {
            None => {
                self.entries.push((name, url));
                assert(self@ =~= old(self)@.push((k, u)));
            },
            Some(i) => {
                self.entries.remove(i);
                self.entries.insert(i, (name, url));
                assert(self@ =~= old(self)@.update(i as int, (k, u)));
                assert(names_unique(self@)) by {
                    assert forall|a: int, b: int| 0 <= a < b < self@.len() implies
                        #[trigger] self@[a].0 != #[trigger] self@[b].0 by {
                        assert(old(self)@[a].0 != old(self)@[b].0);
                    }
                }
            },
        }
    }

    /// Where `name` stands, if it is bound.
    fn position(&self, name: &String) -> (r: Option<usize>)
        requires
            self.wf(),
        ensures
            r is Some <==> entry_index(self@, name@) is Some,
            r is Some ==> entry_index(self@, name@) == Some(r->0 as int),
    {
        let mut i: usize = 0;
        while i < self.entries.len()
            invariant
                i <= self.entries@.len(),
                self.wf(),
                self@.len() == self.entries@.len(),
                forall|m: int| 0 <= m < i ==> #[trigger] self@[m].0 != name@,
            decreases self.entries@.len() - i,
        {
            if self.entries[i].0 == *name {
                assert(self@[i as int].0 == name@);
                proof {
                    let j = choose|j: int| 0 <= j < self@.len() && #[trigger] self@[j].0 == name@;
                    assert(names_unique(self@));
                    assert(j == i as int);
                }
                return Some(i);
            }
            i = i + 1;
        }
        None
    }
}

} // verus!
