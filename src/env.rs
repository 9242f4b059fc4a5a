use vstd::prelude::*;
use crate::err::MatrixError;
use crate::matrix::Matrix;

verus! {

/// Named matrices; each name is bound at most once.
pub struct Env<T> {
    names: Vec<String>,
    values: Vec<Matrix<T>>,
}

impl<T> Env<T> {
    /// Each name is bound at most once, to one matrix.
    pub closed spec fn wf(self) -> bool {
        &&& self.names.len() == self.values.len()
        &&& forall|a: int, b: int|
            0 <= a < self.names.len() && 0 <= b < self.names.len() && a != b ==> #[trigger] self.names@[a]@
                != #[trigger] self.names@[b]@
    }

    closed spec fn slot(self, k: Seq<char>) -> int {
        choose|i: int| 0 <= i < self.names.len() && self.names@[i]@ == k
    }

    /// The bindings, from name to the matrix's rows.
    pub closed spec fn bindings(self) -> Map<Seq<char>, Seq<Seq<T>>> {
        Map::new(
            |k: Seq<char>| exists|i: int| 0 <= i < self.names.len() && self.names@[i]@ == k,
            |k: Seq<char>| self.values@[self.slot(k)]@,
        )
    }
}

impl<T> View for Env<T> {
    type V = Map<Seq<char>, Seq<Seq<T>>>;

    open spec fn view(&self) -> Map<Seq<char>, Seq<Seq<T>>> {
        self.bindings()
    }
}

impl<T: Copy> Env<T> {
    /// An environment with no bindings.
    pub fn new() -> (r: Self)
        ensures
            r.wf(),
            r@ == Map::<Seq<char>, Seq<Seq<T>>>::empty(),
    {
        let r = Env { names: Vec::new(), values: Vec::new() };
        proof {
            assert(r@ =~= Map::<Seq<char>, Seq<Seq<T>>>::empty());
        }
        r
    }

    fn find(&self, key: &String) -> (r: Option<usize>)
        requires
            self.wf(),
        ensures
            match r {
                Some(i) => i < self.names.len() && self.names@[i as int]@ == key@ && self.slot(key@)
                    == i,
                None => !self@.contains_key(key@),
            },
    {
        let mut i: usize = 0;
        while i < self.names.len()
            invariant
                self.wf(),
                i <= self.names.len(),
                forall|a: int| 0 <= a < i ==> #[trigger] self.names@[a]@ != key@,
            decreases self.names.len() - i,
        {
            if self.names[i] == *key {
                proof {
                    assert(self.names@[i as int]@ == key@);
                    let j = self.slot(key@);
                    assert(0 <= j < self.names.len() && self.names@[j]@ == key@);
                    if j != i {
                        assert(self.names@[i as int]@ != self.names@[j]@);
                    }
                }
                return Some(i);
            }
            i = i + 1;
        }
        None
    }

    /// The matrix bound to `name`; `UndefinedVariable` when there is none.
    pub fn get(&self, name: &str) -> (r: Result<&Matrix<T>, MatrixError>)
        requires
            self.wf(),
        ensures
            match r {
                Ok(m) => self@.contains_key(name@) && m@ == self@[name@],
                Err(e) => e == MatrixError::UndefinedVariable && !self@.contains_key(name@),
            },
    {
        let key = name.to_owned();
        match self.find(&key) {
            Some(i) => Ok(&self.values[i]),
            None => Err(MatrixError::UndefinedVariable),
        }
    }

    /// Binds `name` to `m`, replacing what it was bound to.
    pub fn bind(&mut self, name: &str, m: Matrix<T>)
        requires
            old(self).wf(),
        ensures
            final(self).wf(),
            final(self)@ == old(self)@.insert(name@, m@),
    {
        let key = name.to_owned();
        let ghost before = self@;
        let ghost mv = m@;
        match self.find(&key) {
            Some(i) => {
                let ghost names = self.names@;
                self.values.set(i, m);
                proof {
                    assert(self.names@ == names);
                    assert forall|k: Seq<char>| #[trigger] self@.contains_key(k) == before.insert(key@, mv).contains_key(k) by {}
                    assert forall|k: Seq<char>| self@.contains_key(k) implies #[trigger] self@[k] == before.insert(key@, mv)[k] by {
                        let j = self.slot(k);
                        if k == key@ {
                            assert(j == i);
                        } else {
                            assert(j != i);
                        }
                    }
                    assert(self@ =~= before.insert(key@, mv));
                }
            },
            None => {
                let ghost old_names = self.names@;
                let ghost old_values = self.values@;
                self.names.push(key);
                self.values.push(m);
                proof {
                    let n = old_names.len() as int;
                    assert forall|a: int, b: int|
                        0 <= a < self.names.len() && 0 <= b < self.names.len() && a != b implies #[trigger] self.names@[a]@
                            != #[trigger] self.names@[b]@ by {
                        if a == n {
                            assert(old_names[b]@ == self.names@[b]@);
                        }
                        if b == n {
                            assert(old_names[a]@ == self.names@[a]@);
                        }
                    }
                    assert(self.names@[n]@ == name@);
                    assert forall|k: Seq<char>| #[trigger] self@.contains_key(k) == before.insert(name@, mv).contains_key(k) by {
                        if k != name@ && self@.contains_key(k) {
                            let j = choose|j: int| 0 <= j < self.names.len() && self.names@[j]@ == k;
                            assert(j < n);
                            assert(old_names[j]@ == k);
                        }
                        if before.contains_key(k) {
                            let j = choose|j: int| 0 <= j < old_names.len() && old_names[j]@ == k;
                            assert(self.names@[j]@ == k);
                        }
                    }
                    assert forall|k: Seq<char>| self@.contains_key(k) implies #[trigger] self@[k] == before.insert(name@, mv)[k] by {
                        let j = self.slot(k);
                        if k != name@ {
                            let j0 = choose|j: int| 0 <= j < old_names.len() && old_names[j]@ == k;
                            assert(self.names@[j0]@ == k);
                            assert(j == j0);
                            assert(self.values@[j] == old_values[j]);
                        } else {
                            assert(j == n);
                        }
                    }
                    assert(self@ =~= before.insert(name@, mv));
                }
            },
        }
    }
}

} // verus!
