//! Tensors by name.
use vstd::prelude::*;

verus! {

/// A map from tensor names to tensors, in which no name occurs twice.
#[derive(Debug)]
pub struct TensorMap<T> {
    names: Vec<String>,
    tensors: Vec<T>,
}

impl<T: View> View for TensorMap<T> {
    type V = Map<Seq<char>, T::V>;

    closed spec fn view(&self) -> Map<Seq<char>, T::V> {
        Map::new(
            |name: Seq<char>| exists|i: int| self.holds(i, name),
            |name: Seq<char>| self.tensors@[choose|i: int| self.holds(i, name)]@,
        )
    }
}

impl<T: View> TensorMap<T> {
    /// Whether entry `i` carries `name`.
    closed spec fn holds(&self, i: int, name: Seq<char>) -> bool {
        0 <= i < self.names@.len() && self.names@[i]@ == name
    }

    /// Whether each name has one tensor.
    pub closed spec fn wf(&self) -> bool {
        &&& self.names@.len() == self.tensors@.len()
        &&& forall|i: int, j: int|
            0 <= i < j < self.names@.len() ==> (#[trigger] self.names@[i])@ != (
            #[trigger] self.names@[j])@
    }

    proof fn lemma_entry(&self, i: int)
        requires
            self.wf(),
            0 <= i < self.names@.len(),
        ensures
            self@.contains_pair(self.names@[i]@, self.tensors@[i]@),
    {
        let name = self.names@[i]@;
        assert(self.holds(i, name));
        let k = choose|k: int| self.holds(k, name);
        assert(self.holds(k, name));
        assert(k == i);
    }

    /// A map without tensors.
    pub fn new() -> (map: TensorMap<T>)
        ensures
            map.wf(),
            map@ == Map::<Seq<char>, T::V>::empty(),
    {
        let map = TensorMap { names: Vec::new(), tensors: Vec::new() };
        assert(map@ =~= Map::<Seq<char>, T::V>::empty());
        map
    }

    fn position(&self, name: &String) -> (index: Option<usize>)
        requires
            self.wf(),
        ensures
            match index {
                Some(i) => self.holds(i as int, name@),
                None => forall|i: int| !self.holds(i, name@),
            },
    {
        for i in 0..self.names.len()
            invariant
                forall|j: int| 0 <= j < i ==> !self.holds(j, name@),
        {
            if self.names[i] == *name {
                return Some(i);
            }
        }
        None
    }

    /// The tensor called `name`.
    pub fn get(&self, name: &String) -> (tensor: Option<&T>)
        requires
            self.wf(),
        ensures
            match tensor {
                Some(t) => self@.contains_pair(name@, t@),
                None => !self@.contains_key(name@),
            },
    {
        match self.position(name) {
            Some(i) => {
                proof {
                    self.lemma_entry(i as int);
                }
                Some(&self.tensors[i])
            },
            None => None,
        }
    }

    /// Enters a tensor under `name`, in place of the one that was there.
    pub fn insert(&mut self, name: String, tensor: T)
        requires
            old(self).wf(),
        ensures
            final(self).wf(),
            final(self)@ == old(self)@.insert(name@, tensor@),
    {
        let ghost before = *self;
        let ghost added = tensor@;
        match self.position(&name) {
            Some(i) => {
                self.tensors[i] = tensor;
                proof {
                    assert(self.wf());
                    assert forall|n: Seq<char>| #[trigger] self@.contains_key(n) implies
                        before@.contains_key(n) by {
                        let k = choose|k: int| self.holds(k, n);
                        assert(before.holds(k, n));
                    }
                    assert forall|n: Seq<char>| #[trigger] before@.contains_key(n) implies
                        self@.contains_key(n) && (n != name@ ==> self@[n] == before@[n]) by {
                        let k = choose|k: int| before.holds(k, n);
                        assert(self.holds(k, n));
                        self.lemma_entry(k);
                        before.lemma_entry(k);
                    }
                    before.lemma_entry(i as int);
                    self.lemma_entry(i as int);
                    assert(self@ =~= before@.insert(name@, added));
                }
            },
            None => {
                let ghost n0 = name@;
                assert forall|j: int| 0 <= j < before.names@.len() implies (
                #[trigger] before.names@[j])@ != n0 by {
                    assert(!before.holds(j, n0));
                }
                self.names.push(name);
                self.tensors.push(tensor);
                proof {
                    let last = before.names@.len() as int;
                    assert(self.wf());
                    assert forall|n: Seq<char>| #[trigger] self@.contains_key(n) && n != n0 implies
                        before@.contains_key(n) by {
                        let k = choose|k: int| self.holds(k, n);
                        assert(k != last);
                        assert(before.holds(k, n));
                    }
                    assert forall|n: Seq<char>| #[trigger] before@.contains_key(n) implies
                        self@.contains_key(n) && n != n0 && self@[n] == before@[n] by {
                        let k = choose|k: int| before.holds(k, n);
                        assert(self.holds(k, n));
                        self.lemma_entry(k);
                        before.lemma_entry(k);
                    }
                    self.lemma_entry(last);
                    assert(self@ =~= before@.insert(n0, added));
                }
            },
        }
    }
}

} // verus!
