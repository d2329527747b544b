use vstd::prelude::*;

use crate::text::same_text;

verus! {

/// A set of service names, each held once.
#[derive(Debug)]
pub struct NameSet {
    names: Vec<String>,
}

/// The texts of the names, in order.
pub open spec fn texts(v: Seq<String>) -> Seq<Seq<char>> {
    v.map_values(|s: String| s@)
}

impl View for NameSet {
    type V = Set<Seq<char>>;

    closed spec fn view(&self) -> Set<Seq<char>> {
        texts(self.names@).to_set()
    }
}

impl NameSet {
    /// Well-formedness: no name is held twice.
    pub closed spec fn wf(self) -> bool {
        texts(self.names@).no_duplicates()
    }

    /// No names.
    pub fn new() -> (r: NameSet)
        ensures
            r.wf(),
            r@ == Set::<Seq<char>>::empty(),
    {
        let r = NameSet { names: Vec::new() };
        assert(texts(r.names@) =~= Seq::<Seq<char>>::empty());
        assert(texts(r.names@).to_set() =~= Set::<Seq<char>>::empty());
        r
    }

    fn position(&self, name: &str) -> (r: Option<usize>)
        ensures
            r matches Some(i) ==> i < self.names@.len() && self.names@[i as int]@ == name@,
            r is None ==> !self@.contains(name@),
    {
        let mut i: usize = 0;
        while i < self.names.len()
            invariant
                i <= self.names@.len(),
                forall|j: int| 0 <= j < i ==> self.names@[j]@ != name@,
            decreases self.names@.len() - i,
        {
            if same_text(self.names[i].as_str(), name) {
                return Some(i);
            }
            i += 1;
        }
        proof {
            if self@.contains(name@) {
                let j = choose|j: int| 0 <= j < texts(self.names@).len() && texts(self.names@)[j] == name@;
                assert(self.names@[j]@ == name@);
            }
        }
        None
    }

    /// Whether `name` is held.
    pub fn contains(&self, name: &str) -> (r: bool)
        ensures
            r == self@.contains(name@),
    {
        match self.position(name) {
            Some(i) => {
                assert(texts(self.names@)[i as int] == name@);
                true
            },
            None => false,
        }
    }

    /// Adds `name`; says whether it was new.
    pub fn insert(&mut self, name: String) -> (added: bool)
        requires
            old(self).wf(),
        ensures
            final(self).wf(),
            final(self)@ == old(self)@.insert(name@),
            added == !old(self)@.contains(name@),
    {
        if self.contains(name.as_str()) {
            assert(old(self)@.insert(name@) =~= old(self)@);
            return false;
        }
        let ghost before = texts(self.names@);
        self.names.push(name);
        proof {
            assert(texts(self.names@) =~= before.push(name@));
            assert(!before.contains(name@));
            let after = texts(self.names@);
            assert forall|x: Seq<char>| #[trigger] after.contains(x) == (before.contains(x) || x
                == name@) by {
                if after.contains(x) {
                    let j = choose|j: int| 0 <= j < after.len() && after[j] == x;
                    if j < before.len() {
                        assert(before[j] == x);
                    }
                }
                if before.contains(x) {
                    let j = choose|j: int| 0 <= j < before.len() && before[j] == x;
                    assert(after[j] == x);
                }
                if x == name@ {
                    assert(after[before.len() as int] == x);
                }
            }
            assert(after.to_set() =~= before.to_set().insert(name@));
            assert forall|a: int, b: int| 0 <= a < after.len() && 0 <= b < after.len() && a != b implies after[a] != after[b] by {
                if a < before.len() && b < before.len() {
                    assert(after[a] == before[a]);
                    assert(after[b] == before[b]);
                } else if a < before.len() {
                    assert(after[a] == before[a]);
                } else if b < before.len() {
                    assert(after[b] == before[b]);
                }
            }
        }
        true
    }

    /// Takes `name` out; says whether it was there.
    pub fn remove(&mut self, name: &str) -> (removed: bool)
        requires
            old(self).wf(),
        ensures
            final(self).wf(),
            final(self)@ == old(self)@.remove(name@),
            removed == old(self)@.contains(name@),
    {
        match self.position(name) {
            None => {
                assert(old(self)@.remove(name@) =~= old(self)@);
                false
            },
            Some(i) => {
                let ghost before = texts(self.names@);
                self.names.remove(i);
                proof {
                    assert(texts(self.names@) =~= before.remove(i as int));
                    assert forall|x: Seq<char>| #[trigger] texts(self.names@).to_set().contains(x)
                        == old(self)@.remove(name@).contains(x) by {
                        if texts(self.names@).contains(x) {
                            let j = choose|j: int| 0 <= j < texts(self.names@).len() && texts(self.names@)[j] == x;
                            let j2 = if j < i { j } else { j + 1 };
                            assert(before[j2] == x);
                            assert(j2 != i);
                            assert(before[i as int] == name@);
                            assert(before[j2] != before[i as int]);
                            assert(before.contains(x));
                            assert(x != name@);
                        }
                        if old(self)@.remove(name@).contains(x) {
                            let j = choose|j: int| 0 <= j < before.len() && before[j] == x;
                            assert(j != i);
                            if j < i {
                                assert(texts(self.names@)[j] == x);
                            } else {
                                assert(texts(self.names@)[j - 1] == x);
                            }
                        }
                    }
                    assert(texts(self.names@).to_set() =~= old(self)@.remove(name@));
                    assert(texts(self.names@).no_duplicates());
                }
                assert(old(self)@.contains(name@)) by {
                    assert(before[i as int] == name@);
                }
                true
            },
        }
    }

    /// Takes every name out, giving them back, each once.
    pub fn drain(&mut self) -> (all: Vec<String>)
        requires
            old(self).wf(),
        ensures
            final(self).wf(),
            final(self)@ == Set::<Seq<char>>::empty(),
            texts(all@).to_set() == old(self)@,
            texts(all@).no_duplicates(),
    {
        let mut all: Vec<String> = Vec::new();
        std::mem::swap(&mut all, &mut self.names);
        assert(texts(self.names@) =~= Seq::<Seq<char>>::empty());
        assert(texts(self.names@).to_set() =~= Set::<Seq<char>>::empty());
        all
    }
}

} // verus!
