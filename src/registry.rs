//! The process registry: at most one live handle per service name.
//!
//! The registry never terminates a process itself. Every handle that leaves
//! it (replaced by `set`, or drained by `terminate_all`) is handed back to the
//! caller by value, who is then its sole owner and terminates it.

use vstd::prelude::*;

verus! {

/// One entry of the registry: a service name and the handle of its process.
pub struct Slot<H> {
    pub name: String,
    pub handle: H,
}

/// The map from service name to handle that a sequence of slots stands for.
pub open spec fn slots_map<H>(s: Seq<Slot<H>>) -> Map<Seq<char>, H>
    decreases s.len(),
{
    if s.len() == 0 {
        Map::empty()
    } else {
        slots_map(s.drop_last()).insert(s.last().name@, s.last().handle)
    }
}

/// No two slots carry the same name.
pub open spec fn names_distinct<H>(s: Seq<Slot<H>>) -> bool {
    forall|i: int, j: int|
        #![trigger s[i], s[j]]
        0 <= i < j < s.len() ==> s[i].name@ != s[j].name@
}

/// The registry after storing `h` under `name`, and the handle it displaced.
pub open spec fn set_result<H>(m: Map<Seq<char>, H>, name: Seq<char>, h: H) -> (Map<Seq<char>, H>, Option<H>) {
    (m.insert(name, h), if m.contains_key(name) { Some(m[name]) } else { None })
}

proof fn lemma_dom<H>(s: Seq<Slot<H>>, k: Seq<char>)
    ensures
        slots_map(s).contains_key(k) <==> exists|i: int| 0 <= i < s.len() && #[trigger] s[i].name@ == k,
    decreases s.len(),
{
    if s.len() > 0 {
        let t = s.drop_last();
        lemma_dom(t, k);
        if slots_map(t).contains_key(k) {
            let i = choose|i: int| 0 <= i < t.len() && #[trigger] t[i].name@ == k;
            assert(s[i] == t[i]);
        }
        if exists|i: int| 0 <= i < s.len() && #[trigger] s[i].name@ == k {
            let i = choose|i: int| 0 <= i < s.len() && #[trigger] s[i].name@ == k;
            if i < s.len() - 1 {
                assert(t[i] == s[i]);
            }
        }
    }
}

proof fn lemma_value<H>(s: Seq<Slot<H>>, i: int)
    requires
        names_distinct(s),
        0 <= i < s.len(),
    ensures
        slots_map(s).contains_key(s[i].name@),
        slots_map(s)[s[i].name@] == s[i].handle,
    decreases s.len(),
{
    if i < s.len() - 1 {
        let t = s.drop_last();
        assert(t[i] == s[i]);
        assert(s[i].name@ != s[s.len() - 1].name@);
        lemma_value(t, i);
    }
}

proof fn lemma_len<H>(s: Seq<Slot<H>>)
    requires
        names_distinct(s),
    ensures
        slots_map(s).dom().finite(),
        slots_map(s).dom().len() == s.len(),
    decreases s.len(),
{
    if s.len() > 0 {
        let t = s.drop_last();
        assert(names_distinct(t)) by {
            assert forall|i: int, j: int| 0 <= i < j < t.len() implies t[i].name@ != t[j].name@ by {
                assert(t[i] == s[i] && t[j] == s[j]);
            }
        }
        lemma_len(t);
        lemma_dom(t, s.last().name@);
        if slots_map(t).contains_key(s.last().name@) {
            let i = choose|i: int| 0 <= i < t.len() && #[trigger] t[i].name@ == s.last().name@;
            assert(t[i] == s[i]);
            assert(s[i].name@ != s[s.len() - 1].name@);
        }
    }
}

proof fn lemma_update<H>(s: Seq<Slot<H>>, i: int, x: Slot<H>)
    requires
        names_distinct(s),
        0 <= i < s.len(),
        s[i].name@ == x.name@,
    ensures
        names_distinct(s.update(i, x)),
        slots_map(s.update(i, x)) == slots_map(s).insert(x.name@, x.handle),
    decreases s.len(),
{
    let u = s.update(i, x);
    assert(names_distinct(u)) by {
        assert forall|a: int, b: int| 0 <= a < b < u.len() implies u[a].name@ != u[b].name@ by {
            assert(s[a].name@ != s[b].name@);
        }
    }
    let t = s.drop_last();
    if i == s.len() - 1 {
        assert(u.drop_last() =~= t);
        lemma_dom(t, x.name@);
        if slots_map(t).contains_key(x.name@) {
            let j = choose|j: int| 0 <= j < t.len() && #[trigger] t[j].name@ == x.name@;
            assert(t[j] == s[j]);
            assert(s[j].name@ != s[i].name@);
        }
        assert(slots_map(u) =~= slots_map(s).insert(x.name@, x.handle));
    } else {
        assert(names_distinct(t)) by {
            assert forall|a: int, b: int| 0 <= a < b < t.len() implies t[a].name@ != t[b].name@ by {
                assert(t[a] == s[a] && t[b] == s[b]);
            }
        }
        assert(t[i] == s[i]);
        lemma_update(t, i, x);
        assert(u.drop_last() =~= t.update(i, x));
        assert(u.last() == s.last());
        assert(s[i].name@ != s[s.len() - 1].name@);
        assert(slots_map(u) =~= slots_map(s).insert(x.name@, x.handle));
    }
}

/// Storing two handles under one name in turn leaves exactly the second one
/// there, and the second store hands back the first one for termination: it
/// is handed out once, and no longer held.
pub proof fn lemma_set_twice<H>(m: Map<Seq<char>, H>, name: Seq<char>, h1: H, h2: H)
    ensures
        ({
            let (m1, _) = set_result(m, name, h1);
            let (m2, displaced) = set_result(m1, name, h2);
            &&& m2.contains_key(name)
            &&& m2[name] == h2
            &&& displaced == Some(h1)
            &&& m2 == m.insert(name, h2)
        }),
{
    let (m1, _) = set_result(m, name, h1);
    assert(m1.insert(name, h2) =~= m.insert(name, h2));
}

/// Live process handles, at most one per service name.
pub struct Registry<H> {
    slots: Vec<Slot<H>>,
}

impl<H> View for Registry<H> {
    type V = Map<Seq<char>, H>;

    closed spec fn view(&self) -> Map<Seq<char>, H> {
        slots_map(self.slots@)
    }
}

impl<H> Registry<H> {
    /// Well-formedness: no service name occurs twice.
    pub closed spec fn wf(&self) -> bool {
        names_distinct(self.slots@)
    }

    /// An empty registry.
    pub fn new() -> (r: Self)
        ensures
            r.wf(),
            r@ == Map::<Seq<char>, H>::empty(),
    {
        Registry { slots: Vec::new() }
    }

    /// The number of services that hold a handle.
    pub fn len(&self) -> (n: usize)
        requires
            self.wf(),
        ensures
            self@.dom().finite(),
            n == self@.dom().len(),
    {
        proof {
            lemma_len(self.slots@);
        }
        self.slots.len()
    }

    fn position(&self, name: &String) -> (r: Option<usize>)
        ensures
            match r {
                Some(i) => i < self.slots@.len() && self.slots@[i as int].name@ == name@,
                None => forall|i: int| 0 <= i < self.slots@.len() ==> #[trigger] self.slots@[i].name@ != name@,
            },
    {
        let mut i: usize = 0;
        while i < self.slots.len()
            invariant
                i <= self.slots@.len(),
                forall|j: int| 0 <= j < i ==> #[trigger] self.slots@[j].name@ != name@,
            decreases self.slots@.len() - i,
        {
            if self.slots[i].name == *name {
                return Some(i);
            }
            i = i + 1;
        }
        None
    }

    /// The handle stored under `name`, if any.
    pub fn get(&self, name: &String) -> (r: Option<&H>)
        requires
            self.wf(),
        ensures
            r.is_some() == self@.contains_key(name@),
            r matches Some(h) ==> *h == self@[name@],
    {
        match self.position(name) {
            Some(i) => {
                proof {
                    lemma_value(self.slots@, i as int);
                }
                Some(&self.slots[i].handle)
            },
            None => {
                proof {
                    lemma_dom(self.slots@, name@);
                }
                None
            },
        }
    }

    /// Stores `handle` under `name`. A handle that was stored under `name`
    /// before is removed and handed back, so that the caller terminates it
    /// before the new process is relied on.
    pub fn set(&mut self, name: String, handle: H) -> (displaced: Option<H>)
        requires
            old(self).wf(),
        ensures
            final(self).wf(),
            (final(self)@, displaced) == set_result(old(self)@, name@, handle),
    {
        match self.position(&name) {
            Some(i) => {
                let ghost s = self.slots@;
                let mut slot = Slot { name, handle };
                proof {
                    lemma_value(s, i as int);
                    lemma_update(s, i as int, slot);
                }
                self.slots.set_and_swap(i, &mut slot);
                Some(slot.handle)
            },
            None => {
                let ghost s = self.slots@;
                proof {
                    lemma_dom(s, name@);
                }
                let slot = Slot { name, handle };
                self.slots.push(slot);
                proof {
                    let u = self.slots@;
                    assert(u.drop_last() =~= s);
                    assert(names_distinct(u)) by {
                        assert forall|a: int, b: int| 0 <= a < b < u.len() implies u[a].name@ != u[b].name@ by {
                            if b == u.len() - 1 {
                                assert(u[a] == s[a]);
                            } else {
                                assert(u[a] == s[a] && u[b] == s[b]);
                            }
                        }
                    }
                }
                None
            },
        }
    }

    /// Empties the registry and hands back every entry it held, each exactly
    /// once, so that the caller attempts to terminate all of them.
    pub fn terminate_all(&mut self) -> (drained: Vec<Slot<H>>)
        requires
            old(self).wf(),
        ensures
            final(self).wf(),
            final(self)@ == Map::<Seq<char>, H>::empty(),
            names_distinct(drained@),
            slots_map(drained@) == old(self)@,
            old(self)@.dom().finite(),
            drained@.len() == old(self)@.dom().len(),
    {
        proof {
            lemma_len(self.slots@);
        }
        let mut drained: Vec<Slot<H>> = Vec::new();
        std::mem::swap(&mut drained, &mut self.slots);
        drained
    }
}

} // verus!
