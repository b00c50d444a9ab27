//! The validators of one command, by argument position.
use vstd::prelude::*;

use crate::validate::ArgValidator;

verus! {

/// Positions strictly increase along `s`.
pub open spec fn ascending(s: Seq<(u32, ArgValidator)>) -> bool {
    forall|i: int, j: int| 0 <= i < j < s.len() ==> s[i].0 < s[j].0
}

/// The validator bound at position `p`: the first entry of `s` for it.
pub open spec fn bound_at(s: Seq<(u32, ArgValidator)>, p: u32) -> Option<ArgValidator>
    decreases s.len(),
{
    if s.len() == 0 {
        None
    } else if s[0].0 == p {
        Some(s[0].1)
    } else {
        bound_at(s.drop_first(), p)
    }
}

pub proof fn lemma_bound_at_index(s: Seq<(u32, ArgValidator)>, p: u32, i: int)
    requires
        0 <= i < s.len(),
        s[i].0 == p,
        forall|k: int| 0 <= k < i ==> s[k].0 != p,
    ensures
        bound_at(s, p) == Some(s[i].1),
    decreases i,
{
    if i > 0 {
        assert forall|k: int| 0 <= k < i - 1 implies s.drop_first()[k].0 != p by {
            assert(s[k + 1].0 != p);
        }
        lemma_bound_at_index(s.drop_first(), p, i - 1);
    }
}

pub proof fn lemma_bound_at_none(s: Seq<(u32, ArgValidator)>, p: u32)
    requires
        forall|k: int| 0 <= k < s.len() ==> s[k].0 != p,
    ensures
        bound_at(s, p) is None,
    decreases s.len(),
{
    if s.len() > 0 {
        assert forall|k: int| 0 <= k < s.len() - 1 implies s.drop_first()[k].0 != p by {
            assert(s[k + 1].0 != p);
        }
        lemma_bound_at_none(s.drop_first(), p);
    }
}

/// In an ascending sequence, the entry at `i` is the one bound at its position.
pub proof fn lemma_ascending_bound(s: Seq<(u32, ArgValidator)>, i: int)
    requires
        ascending(s),
        0 <= i < s.len(),
    ensures
        bound_at(s, s[i].0) == Some(s[i].1),
{
    lemma_bound_at_index(s, s[i].0, i);
}

/// A position-to-validator mapping, kept in ascending order of position.
pub struct ArgBindings {
    entries: Vec<(u32, ArgValidator)>,
}

impl View for ArgBindings {
    type V = Seq<(u32, ArgValidator)>;

    closed spec fn view(&self) -> Seq<(u32, ArgValidator)> {
        self.entries@
    }
}

impl ArgBindings {
    #[verifier::type_invariant]
    spec fn ordered(self) -> bool {
        ascending(self.entries@)
    }

    pub fn new() -> (r: Self)
        ensures
            r@ == Seq::<(u32, ArgValidator)>::empty(),
            ascending(r@),
    {
        ArgBindings { entries: Vec::new() }
    }

    pub fn len(&self) -> (r: usize)
        ensures
            r == self@.len(),
    {
        self.entries.len()
    }

    /// The entry at index `i` in ascending order.
    pub fn entry(&self, i: usize) -> (r: &(u32, ArgValidator))
        requires
            i < self@.len(),
        ensures
            *r == self@[i as int],
    {
        &self.entries[i]
    }

    /// The validator bound at `position`, if any.
    pub fn get(&self, position: u32) -> (r: Option<&ArgValidator>)
        ensures
            r matches Some(v) ==> bound_at(self@, position) == Some(*v),
            r is None ==> bound_at(self@, position) is None,
    {
        let mut i: usize = 0;
        while i < self.entries.len()
            invariant
                i <= self.entries@.len(),
                forall|k: int| 0 <= k < i ==> self.entries@[k].0 != position,
            decreases self.entries@.len() - i,
        {
            if self.entries[i].0 == position {
                proof {
                    lemma_bound_at_index(self.entries@, position, i as int);
                }
                return Some(&self.entries[i].1);
            }
            i = i + 1;
        }
        proof {
            lemma_bound_at_none(self.entries@, position);
        }
        None
    }

    /// Binds `validator` at `position`, replacing what was bound there.
    pub fn bind(self, position: u32, validator: ArgValidator) -> (r: Self)
        ensures
            ascending(r@),
            forall|p: u32|
                bound_at(r@, p) == if p == position {
                    Some(validator)
                } else {
                    bound_at(self@, p)
                },
    {
        proof {
            use_type_invariant(&self);
        }
        let ghost old_s = self.entries@;
        let mut entries = self.entries;
        let n = entries.len();
        let mut i: usize = 0;
        while i < n && entries[i].0 < position
            invariant
                n == entries@.len(),
                entries@ == old_s,
                ascending(old_s),
                i <= n,
                forall|k: int| 0 <= k < i ==> old_s[k].0 < position,
            decreases n - i,
        {
            i = i + 1;
        }
        let ghost new_s;
        if i < n && entries[i].0 == position {
            entries.set(i, (position, validator));
            proof {
                new_s = entries@;
                assert forall|p: u32|
                    bound_at(new_s, p) == if p == position {
                        Some(validator)
                    } else {
                        bound_at(old_s, p)
                    } by {
                    if p == position {
                        lemma_bound_at_index(new_s, p, i as int);
                    } else if exists|k: int| 0 <= k < n && old_s[k].0 == p {
                        let k = choose|k: int| 0 <= k < n && old_s[k].0 == p;
                        lemma_bound_at_index(old_s, p, k);
                        lemma_bound_at_index(new_s, p, k);
                    } else {
                        lemma_bound_at_none(old_s, p);
                        lemma_bound_at_none(new_s, p);
                    }
                }
            }
        } else {
            entries.insert(i, (position, validator));
            proof {
                new_s = entries@;
                assert(ascending(new_s));
                assert forall|p: u32|
                    bound_at(new_s, p) == if p == position {
                        Some(validator)
                    } else {
                        bound_at(old_s, p)
                    } by {
                    if p == position {
                        lemma_bound_at_index(new_s, p, i as int);
                    } else if exists|k: int| 0 <= k < n && old_s[k].0 == p {
                        let k = choose|k: int| 0 <= k < n && old_s[k].0 == p;
                        lemma_bound_at_index(old_s, p, k);
                        if k < i {
                            lemma_bound_at_index(new_s, p, k);
                        } else {
                            lemma_bound_at_index(new_s, p, k + 1);
                        }
                    } else {
                        lemma_bound_at_none(old_s, p);
                        lemma_bound_at_none(new_s, p);
                    }
                }
            }
        }
        ArgBindings { entries }
    }
}

} // verus!
