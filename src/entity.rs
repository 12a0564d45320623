//! Named variables kept by an entity, one value per name.
use vstd::prelude::*;

verus! {

/// Values stored under distinct names, in the order they were first declared.
pub struct EntityVariableArray<T> {
    pub variables: Vec<(String, T)>,
}

/// No two entries share a name.
pub open spec fn distinct_names<T>(vs: Seq<(String, T)>) -> bool {
    forall|i: int, j: int| 0 <= i < j < vs.len() ==> vs[i].0@ != vs[j].0@
}

/// Entry `i` is the one named `name`.
pub open spec fn named_at<T>(vs: Seq<(String, T)>, name: Seq<char>, i: int) -> bool {
    0 <= i < vs.len() && vs[i].0@ == name
}

pub open spec fn declared<T>(vs: Seq<(String, T)>, name: Seq<char>) -> bool {
    exists|i: int| named_at(vs, name, i)
}

impl<T> EntityVariableArray<T> {
    pub open spec fn wf(&self) -> bool {
        distinct_names(self.variables@)
    }

    pub fn new() -> (a: EntityVariableArray<T>)
        ensures
            a.wf(),
            a.variables@.len() == 0,
    {
        EntityVariableArray { variables: Vec::new() }
    }

    /// The place of the entry named `name`.
    fn position(&self, name: &str) -> (r: Option<usize>)
        requires
            self.wf(),
        ensures
            r matches Some(i) ==> named_at(self.variables@, name@, i as int),
            r is None ==> !declared(self.variables@, name@),
    {
        let key = name.to_owned();
        let mut i: usize = 0;
        while i < self.variables.len()
            invariant
                key@ == name@,
                i <= self.variables@.len(),
                forall|k: int| 0 <= k < i ==> self.variables@[k].0@ != name@,
            decreases self.variables@.len() - i,
        {
            if self.variables[i].0 == key {
                return Some(i);
            }
            i = i + 1;
        }
        None
    }

    /// Stores `value` under `name`, replacing any value already there, and
    /// hands out the stored value.
    pub fn declare(&mut self, name: &str, value: T) -> (r: &mut T)
        requires
            old(self).wf(),
        ensures
            *r == value,
            final(self).wf(),
            declared(old(self).variables@, name@) ==> exists|i: int|
                named_at(old(self).variables@, name@, i) && final(self).variables@
                    == old(self).variables@.update(i, (old(self).variables@[i].0, *final(r))),
            !declared(old(self).variables@, name@) ==> {
                &&& final(self).variables@.len() == old(self).variables@.len() + 1
                &&& final(self).variables@.subrange(0, old(self).variables@.len() as int)
                    == old(self).variables@
                &&& final(self).variables@.last().0@ == name@
                &&& final(self).variables@.last().1 == *final(r)
            },
    {
        match self.position(name) {
            Some(i) => {
                self.variables[i].1 = value;
                &mut self.variables[i].1
            },
            None => {
                let k = self.variables.len();
                self.variables.push((name.to_owned(), value));
                proof {
                    assert forall|a: int, b: int| 0 <= a < b < self.variables@.len() implies self.variables@[a].0@
                        != self.variables@[b].0@ by {
                        if b == k {
                            assert(!named_at(old(self).variables@, name@, a));
                        }
                    }
                }
                &mut self.variables[k].1
            },
        }
    }

    /// Removes the value stored under `name` and returns it.
    pub fn delete(&mut self, name: &str) -> (r: T)
        requires
            old(self).wf(),
            declared(old(self).variables@, name@),
        ensures
            final(self).wf(),
            exists|i: int|
                named_at(old(self).variables@, name@, i) && r == old(self).variables@[i].1
                    && final(self).variables@ == old(self).variables@.remove(i),
    {
        let i = self.position(name).unwrap();
        let (_, v) = self.variables.remove(i);
        v
    }

    /// The value stored under `name`, to read or change in place.
    pub fn get(&mut self, name: &str) -> (r: &mut T)
        requires
            old(self).wf(),
            declared(old(self).variables@, name@),
        ensures
            final(self).wf(),
            exists|i: int|
                named_at(old(self).variables@, name@, i) && *r == old(self).variables@[i].1
                    && final(self).variables@ == old(self).variables@.update(
                    i,
                    (old(self).variables@[i].0, *final(r)),
                ),
    {
        let i = self.position(name).unwrap();
        &mut self.variables[i].1
    }

    /// How many names hold a value.
    pub fn len(&self) -> (r: usize)
        ensures
            r == self.variables@.len(),
    {
        self.variables.len()
    }
}

} // verus!
