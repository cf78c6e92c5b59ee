//! The values that templates are rendered with, and the set of named
//! variables that one render call reads.

use vstd::prelude::*;

verus! {

/// A value that a template variable can hold.
#[derive(Debug)]
pub enum TemplateVar {
    /// A mapping from names to values.
    Object(Vars),
    /// An ordered list of values.
    Vec(Vec<TemplateVar>),
    /// Text, rendered verbatim.
    String(String),
    /// A 64-bit signed integer, rendered in base 10.
    Int(i64),
    /// A double, held as the decimal text that std's float formatting gives
    /// it, and rendered as that text.
    Float(String),
}

/// What rendering can see of a value: the text of the scalar variants, and
/// only the shape of the others.
pub enum ValueView {
    Str(Seq<char>),
    Int(int),
    Float(Seq<char>),
    Object,
    List,
}

impl TemplateVar {
    pub open spec fn view(&self) -> ValueView {
        match self {
            TemplateVar::Object(_) => ValueView::Object,
            TemplateVar::Vec(_) => ValueView::List,
            TemplateVar::String(s) => ValueView::Str(s@),
            TemplateVar::Int(n) => ValueView::Int(*n as int),
            TemplateVar::Float(s) => ValueView::Float(s@),
        }
    }
}

impl From<Vars> for TemplateVar {
    fn from(v: Vars) -> (r: TemplateVar)
        ensures
            r == TemplateVar::Object(v),
    {
        TemplateVar::Object(v)
    }
}

impl vstd::std_specs::convert::FromSpecImpl<Vars> for TemplateVar {
    open spec fn obeys_from_spec() -> bool {
        true
    }

    open spec fn from_spec(v: Vars) -> TemplateVar {
        TemplateVar::Object(v)
    }
}

impl From<Vec<TemplateVar>> for TemplateVar {
    fn from(v: Vec<TemplateVar>) -> (r: TemplateVar)
        ensures
            r == TemplateVar::Vec(v),
    {
        TemplateVar::Vec(v)
    }
}

impl vstd::std_specs::convert::FromSpecImpl<Vec<TemplateVar>> for TemplateVar {
    open spec fn obeys_from_spec() -> bool {
        true
    }

    open spec fn from_spec(v: Vec<TemplateVar>) -> TemplateVar {
        TemplateVar::Vec(v)
    }
}

impl From<String> for TemplateVar {
    fn from(v: String) -> (r: TemplateVar)
        ensures
            r == TemplateVar::String(v),
    {
        TemplateVar::String(v)
    }
}

impl vstd::std_specs::convert::FromSpecImpl<String> for TemplateVar {
    open spec fn obeys_from_spec() -> bool {
        true
    }

    open spec fn from_spec(v: String) -> TemplateVar {
        TemplateVar::String(v)
    }
}

impl From<i64> for TemplateVar {
    fn from(v: i64) -> (r: TemplateVar)
        ensures
            r == TemplateVar::Int(v),
    {
        TemplateVar::Int(v)
    }
}

impl vstd::std_specs::convert::FromSpecImpl<i64> for TemplateVar {
    open spec fn obeys_from_spec() -> bool {
        true
    }

    open spec fn from_spec(v: i64) -> TemplateVar {
        TemplateVar::Int(v)
    }
}

/// No name occurs twice.
pub open spec fn keys_unique(s: Seq<(Seq<char>, ValueView)>) -> bool {
    forall|i: int, j: int|
        0 <= i < j < s.len() ==> #[trigger] s[i].0 != #[trigger] s[j].0
}

/// Where `k` stands among the names, if it does.
pub open spec fn index_of(s: Seq<(Seq<char>, ValueView)>, k: Seq<char>) -> Option<int> {
    if exists|i: int| 0 <= i < s.len() && #[trigger] s[i].0 == k {
        Some(choose|i: int| 0 <= i < s.len() && #[trigger] s[i].0 == k)
    } else {
        None
    }
}

/// The value bound to `k`, if any.
pub open spec fn lookup(s: Seq<(Seq<char>, ValueView)>, k: Seq<char>) -> Option<ValueView> {
    match index_of(s, k) {
        Some(i) => Some(s[i].1),
        None => None,
    }
}

/// Named variables: each name bound to one value, in the order in which the
/// names were first inserted.
#[derive(Debug)]
pub struct Vars {
    entries: Vec<(String, TemplateVar)>,
}

impl View for Vars {
    type V = Seq<(Seq<char>, ValueView)>;

    closed spec fn view(&self) -> Seq<(Seq<char>, ValueView)> {
        self.entries@.map_values(|e: (String, TemplateVar)| (e.0@, e.1.view()))
    }
}

impl Vars {
    pub open spec fn wf(&self) -> bool {
        keys_unique(self@)
    }

    /// No variables.
    pub fn new() -> (r: Vars)
        ensures
            r@ == Seq::<(Seq<char>, ValueView)>::empty(),
            r.wf(),
    {
        let r = Vars { entries: Vec::new() };
        assert(r@ =~= Seq::<(Seq<char>, ValueView)>::empty());
        r
    }

    /// The number of variables.
    pub fn len(&self) -> (r: usize)
        ensures
            r == self@.len(),
    {
        self.entries.len()
    }

    /// The `i`-th name and its value, in insertion order.
    pub fn entry(&self, i: usize) -> (r: (&String, &TemplateVar))
        requires
            i < self@.len(),
        ensures
            (r.0@, r.1.view()) == self@[i as int],
    {
        let e = &self.entries[i];
        (&e.0, &e.1)
    }

    /// Where `name` stands, if it is bound.
    fn position(&self, name: &String) -> (r: Option<usize>)
        requires
            self.wf(),
        ensures
            r is Some <==> index_of(self@, name@) is Some,
            r is Some ==> index_of(self@, name@) == Some(r->0 as int),
    {
        let mut i: usize = 0;
        while i < self.entries.len()
            invariant
                i <= self.entries@.len(),
                self.wf(),
                self@.len() == self.entries@.len(),
                forall|m: int| 0 <= m < i ==> #[trigger] self@[m].0 != name@,
            decreases self.entries@.len() - i,
        {
            if self.entries[i].0 == *name {
                assert(self@[i as int].0 == name@);
                proof {
                    let j = choose|j: int| 0 <= j < self@.len() && #[trigger] self@[j].0 == name@;
                    assert(keys_unique(self@));
                    assert(j == i as int);
                }
                return Some(i);
            }
            i = i + 1;
        }
        None
    }

    /// The value bound to `name`.
    pub fn get(&self, name: &String) -> (r: Option<&TemplateVar>)
        requires
            self.wf(),
        ensures
            match r {
                None => lookup(self@, name@) is None,
                Some(v) => lookup(self@, name@) == Some(v.view()),
            },
    {
        match self.position(name) {
            None => None,
            Some(i) => Some(&self.entries[i].1),
        }
    }

    /// Binds `name` to `value`. A name that was bound keeps its place and
    /// gets the new value, and its old value is returned; a new name goes last.
    pub fn insert(&mut self, name: String, value: TemplateVar) -> (r: Option<TemplateVar>)
        requires
            old(self).wf(),
        ensures
            final(self).wf(),
            match index_of(old(self)@, name@) {
                Some(i) => final(self)@ == old(self)@.update(i, (name@, value.view())),
                None => final(self)@ == old(self)@.push((name@, value.view())),
            },
            match r {
                None => lookup(old(self)@, name@) is None,
                Some(v) => lookup(old(self)@, name@) == Some(v.view()),
            },
    {
        let ghost k = name@;
        let ghost vv = value.view();
        match self.position(&name) {
            None => {
                self.entries.push((name, value));
                assert(self@ =~= old(self)@.push((k, vv)));
                None
            },
            Some(i) => {
                let e = self.entries.remove(i);
                self.entries.insert(i, (name, value));
                assert(self@ =~= old(self)@.update(i as int, (k, vv)));
                assert(keys_unique(self@)) by {
                    assert forall|a: int, b: int| 0 <= a < b < self@.len() implies
                        #[trigger] self@[a].0 != #[trigger] self@[b].0 by {
                        if a != i && b != i {
                            assert(old(self)@[a].0 != old(self)@[b].0);
                        } else if a == i {
                            assert(old(self)@[a].0 != old(self)@[b].0);
                        } else {
                            assert(old(self)@[a].0 != old(self)@[b].0);
                        }
                    }
                }
                Some(e.1)
            },
        }
    }
}

} // verus!
