//! The name registry: the one piece of state shared by every session. A
//! set of claimed display names with an atomic check-and-insert, an
//! idempotent release, and a point-in-time snapshot.
use vstd::prelude::*;
use crate::text::views_of;

verus! {

/// No name occurs twice.
pub open spec fn distinct_names(s: Seq<Seq<char>>) -> bool {
    forall|i: int, j: int| 0 <= i < j < s.len() ==> s[i] != s[j]
}

/// The set of claimed display names. A name is present exactly while one
/// active session owns it; callers mutate it only under mutual exclusion.
pub struct Registry {
    names: Vec<String>,
}

impl View for Registry {
    type V = Seq<Seq<char>>;

    closed spec fn view(&self) -> Seq<Seq<char>> {
        views_of(self.names@)
    }
}

impl Registry {
    /// The registry invariant: no duplicate names.
    pub open spec fn wf(&self) -> bool {
        distinct_names(self@)
    }

    /// An empty registry, created once at process start.
    pub fn new() -> (r: Registry)
        ensures
            r@ == Seq::<Seq<char>>::empty(),
            r.wf(),
    {
        let r = Registry { names: Vec::new() };
        proof {
            assert(r@ =~= Seq::<Seq<char>>::empty());
        }
        r
    }

    /// The index of the first occurrence of `name`, if any.
    fn find_first(&self, name: &String) -> (r: Option<usize>)
        ensures
            match r {
                Some(k) => {
                    &&& k < self@.len()
                    &&& self@[k as int] == name@
                    &&& forall|j: int| 0 <= j < k ==> self@[j] != name@
                },
                None => !self@.contains(name@),
            },
    {
        let n = self.names.len();
        let mut k: usize = 0;
        while k < n
            invariant
                n == self.names.len(),
                k <= n,
                forall|j: int| 0 <= j < k ==> self@[j] != name@,
            decreases n - k,
        {
            if self.names[k].eq(name) {
                return Some(k);
            }
            k += 1;
        }
        proof {
            assert(forall|j: int| 0 <= j < self@.len() ==> self@[j] != name@);
        }
        None
    }

    /// Whether `name` is currently claimed.
    pub fn contains_name(&self, name: &String) -> (b: bool)
        ensures
            b == self@.contains(name@),
    {
        match self.find_first(name) {
            Some(k) => {
                proof {
                    assert(self@.contains(name@)) by {
                        assert(self@[k as int] == name@);
                    }
                }
                true
            }
            None => false,
        }
    }

    /// Atomically claims `name` if it is free: the membership check and the
    /// insert happen under one exclusive borrow, so two racing claims of the
    /// same name cannot both succeed.
    pub fn try_claim(&mut self, name: &String) -> (claimed: bool)
        requires
            old(self).wf(),
        ensures
            final(self).wf(),
            claimed == !old(self)@.contains(name@),
            claimed ==> final(self)@ == old(self)@.push(name@),
            !claimed ==> *final(self) == *old(self),
    {
        if self.contains_name(name) {
            false
        } else {
            let ghost oldv = self@;
            self.names.push(name.clone());
            proof {
                assert(self@ =~= oldv.push(name@));
                assert forall|i: int, j: int| 0 <= i < j < self@.len() implies self@[i]
                    != self@[j] by {
                    if j == self@.len() - 1 {
                        if oldv[i] == name@ {
                            assert(oldv.contains(name@));
                        }
                    }
                }
            }
            true
        }
    }

    /// Removes `name` unconditionally; a no-op when it is absent.
    pub fn release(&mut self, name: &String)
        requires
            old(self).wf(),
        ensures
            final(self).wf(),
            final(self)@ == old(self)@.remove_value(name@),
            !final(self)@.contains(name@),
    {
        let ghost oldv = self@;
        let found = self.find_first(name);
        proof {
            oldv.index_of_first_ensures(name@);
        }
        match found {
            Some(k) => {
                self.names.remove(k);
                proof {
                    assert(self@ =~= oldv.remove(k as int));
                    assert(oldv.index_of_first(name@) == Some(k as int));
                    assert forall|j: int| 0 <= j < self@.len() implies self@[j] != name@ by {
                        if j >= k {
                            assert(self@[j] == oldv[j + 1]);
                        }
                    }
                    assert(!self@.contains(name@));
                    assert forall|i: int, j: int| 0 <= i < j < self@.len() implies self@[i]
                        != self@[j] by {
                        assert(self@[i] == if i < k { oldv[i] } else { oldv[i + 1] });
                        assert(self@[j] == if j < k { oldv[j] } else { oldv[j + 1] });
                    }
                }
            }
            None => {
                proof {
                    assert(self@ == oldv.remove_value(name@));
                }
            }
        }
    }

    /// A point-in-time copy of every claimed name, for composing the
    /// presence listing; the live container is never handed out.
    pub fn snapshot(&self) -> (r: Vec<String>)
        ensures
            views_of(r@) == self@,
    {
        let mut r: Vec<String> = Vec::new();
        let n = self.names.len();
        let mut k: usize = 0;
        while k < n
            invariant
                n == self.names.len(),
                k <= n,
                r@.len() == k,
                forall|j: int| 0 <= j < k ==> #[trigger] r@[j]@ == self@[j],
            decreases n - k,
        {
            r.push(self.names[k].clone());
            k += 1;
        }
        proof {
            assert(views_of(r@) =~= self@);
        }
        r
    }
}

/// Claiming a free name keeps the registry duplicate-free: however many
/// joins with distinct valid names race, no duplicate ever enters.
pub proof fn lemma_claim_keeps_distinct(names: Seq<Seq<char>>, n: Seq<char>)
    requires
        distinct_names(names),
        !names.contains(n),
    ensures
        distinct_names(names.push(n)),
{
    let pushed = names.push(n);
    assert forall|i: int, j: int| 0 <= i < j < pushed.len() implies pushed[i] != pushed[j] by {
        if j == pushed.len() - 1 {
            if names[i] == n {
                assert(names.contains(n));
            }
        }
    }
}

/// When two sessions race to claim one name, exactly one succeeds: once a
/// claim of `n` has gone through, the registry contains `n`, so a second
/// claim of `n` is refused.
pub proof fn lemma_duplicate_claim_fails(names: Seq<Seq<char>>, n: Seq<char>)
    ensures
        names.push(n).contains(n),
{
    assert(names.push(n)[names.len() as int] == n);
}

/// Removing a name keeps the remaining names distinct.
pub proof fn lemma_remove_value_keeps_distinct(names: Seq<Seq<char>>, n: Seq<char>)
    requires
        distinct_names(names),
    ensures
        distinct_names(names.remove_value(n)),
{
    names.index_of_first_ensures(n);
    match names.index_of_first(n) {
        Some(k) => {
            let removed = names.remove(k);
            assert forall|i: int, j: int| 0 <= i < j < removed.len() implies removed[i]
                != removed[j] by {
                assert(removed[i] == if i < k {
                    names[i]
                } else {
                    names[i + 1]
                });
                assert(removed[j] == if j < k {
                    names[j]
                } else {
                    names[j + 1]
                });
            }
        }
        None => {}
    }
}

/// One registry transition, as a session performs it: a claim inserts
/// the name when it is free and is refused without effect when it is
/// taken; a release removes the name. `try_claim` and `release` promise
/// exactly these transitions.
pub enum RegistryOp {
    Claim(Seq<char>),
    Release(Seq<char>),
}

/// The registry contents after one transition.
pub open spec fn apply_op(names: Seq<Seq<char>>, op: RegistryOp) -> Seq<Seq<char>> {
    match op {
        RegistryOp::Claim(n) => if !names.contains(n) {
            names.push(n)
        } else {
            names
        },
        RegistryOp::Release(n) => names.remove_value(n),
    }
}

/// The registry contents after a whole sequence of transitions, in the
/// order the mutual-exclusion section serialized them.
pub open spec fn apply_ops(names: Seq<Seq<char>>, ops: Seq<RegistryOp>) -> Seq<Seq<char>>
    decreases ops.len(),
{
    if ops.len() == 0 {
        names
    } else {
        apply_ops(apply_op(names, ops[0]), ops.drop_first())
    }
}

/// However many sessions claim and release in whatever serialized
/// interleaving, the registry never contains a duplicate name.
pub proof fn lemma_no_duplicates_under_any_interleaving(
    names: Seq<Seq<char>>,
    ops: Seq<RegistryOp>,
)
    requires
        distinct_names(names),
    ensures
        distinct_names(apply_ops(names, ops)),
    decreases ops.len(),
{
    if ops.len() > 0 {
        let after = apply_op(names, ops[0]);
        match ops[0] {
            RegistryOp::Claim(n) => {
                if !names.contains(n) {
                    lemma_claim_keeps_distinct(names, n);
                }
            }
            RegistryOp::Release(n) => {
                lemma_remove_value_keeps_distinct(names, n);
            }
        }
        lemma_no_duplicates_under_any_interleaving(after, ops.drop_first());
    }
}

/// After a release, the released name is claimable again by a new
/// connection.
pub proof fn lemma_release_frees_name(names: Seq<Seq<char>>, n: Seq<char>)
    requires
        distinct_names(names),
    ensures
        !names.remove_value(n).contains(n),
{
    names.index_of_first_ensures(n);
    match names.index_of_first(n) {
        Some(i) => {
            let removed = names.remove(i);
            assert forall|j: int| 0 <= j < removed.len() implies removed[j] != n by {
                if j >= i {
                    assert(removed[j] == names[j + 1]);
                }
            }
        }
        None => {}
    }
}

} // verus!
