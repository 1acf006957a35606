//! The group of values stored under one key.

use vstd::prelude::*;

verus! {

/// All the values stored under one key: exactly one, or a sequence in
/// insertion order.
pub enum OneOrMany<V> {
    Single(V),
    Many(Vec<V>),
}

/// The mathematical value of a [`OneOrMany`].
pub ghost enum Group<V> {
    Single(V),
    Many(Seq<V>),
}

impl<V> Group<V> {
    /// The values of the group, in insertion order.
    pub open spec fn values(self) -> Seq<V> {
        match self {
            Group::Single(v) => seq![v],
            Group::Many(s) => s,
        }
    }

    /// The one value of a single group; nothing for a group of many.
    pub open spec fn single(self) -> Option<V> {
        match self {
            Group::Single(v) => Some(v),
            Group::Many(_) => None,
        }
    }

    /// The values of a group of many; nothing for a single group.
    pub open spec fn many(self) -> Option<Seq<V>> {
        match self {
            Group::Single(_) => None,
            Group::Many(s) => Some(s),
        }
    }

    /// Whether the group is in the form that storing values one by one gives
    /// it: a group of many holds at least two values.
    pub open spec fn compact(self) -> bool {
        self matches Group::Many(s) ==> s.len() >= 2
    }

    /// The group after one more value is stored: a single group becomes a
    /// group of two, a group of many gets the value at its end.
    pub open spec fn grow(self, v: V) -> Group<V> {
        match self {
            Group::Single(first) => Group::Many(seq![first, v]),
            Group::Many(s) => Group::Many(s.push(v)),
        }
    }

    /// Whether `copy` is of the same kind and length as the group and holds,
    /// at each position, a clone of the value there.
    pub open spec fn cloned_as(self, copy: Group<V>) -> bool where V: Clone {
        match self {
            Group::Single(v) => copy matches Group::Single(c) && cloned(v, c),
            Group::Many(s) => copy matches Group::Many(t) && s.len() == t.len() && forall|i: int|
                0 <= i < s.len() ==> cloned(#[trigger] s[i], t[i]),
        }
    }

    /// Where a clone of a value is always that value, a copy of a group is
    /// that group.
    pub proof fn lemma_exact_copy(self, copy: Group<V>) where V: Clone
        requires
            self.cloned_as(copy),
            forall|a: V, b: V| cloned(a, b) ==> a == b,
        ensures
            copy == self,
    {
        match self {
            Group::Single(_) => {},
            Group::Many(s) => {
                assert(copy->Many_0 =~= s);
            },
        }
    }

    /// The group with the value at position `i` replaced by `v`.
    pub open spec fn update(self, i: int, v: V) -> Group<V> {
        match self {
            Group::Single(_) => Group::Single(v),
            Group::Many(s) => Group::Many(s.update(i, v)),
        }
    }

    /// The number of values in the group.
    pub open spec fn len(self) -> nat {
        self.values().len()
    }
}

impl<V> View for OneOrMany<V> {
    type V = Group<V>;

    open spec fn view(&self) -> Group<V> {
        match self {
            OneOrMany::Single(v) => Group::Single(*v),
            OneOrMany::Many(vec) => Group::Many(vec@),
        }
    }
}

impl<V: Clone> Clone for OneOrMany<V> {
    fn clone(&self) -> (copy: Self)
        ensures
            self@.cloned_as(copy@),
    {
        match self {
            OneOrMany::Single(v) => OneOrMany::Single(v.clone()),
            OneOrMany::Many(vec) => OneOrMany::Many(vec.clone()),
        }
    }
}

impl<V> vstd::std_specs::core::IndexSpecImpl<usize> for OneOrMany<V> {
    open spec fn index_req(&self, index: &usize) -> bool {
        *index < self@.len()
    }
}

impl<V> core::ops::Index<usize> for OneOrMany<V> {
    type Output = V;

    fn index(&self, index: usize) -> (output: &V)
        ensures
            *output == self@.values()[index as int],
    {
        match self {
            OneOrMany::Single(v) => if index == 0 {
                v
            } else {
                vstd::pervasive::unreached()
            },
            OneOrMany::Many(vec) => &vec[index],
        }
    }
}

impl<V> core::ops::IndexMut<usize> for OneOrMany<V> {
    fn index_mut(&mut self, index: usize) -> (output: &mut V)
        requires
            index < old(self)@.len(),
        ensures
            *output == old(self)@.values()[index as int],
            final(self)@ == old(self)@.update(index as int, *final(output)),
    {
        match self {
            OneOrMany::Single(v) => if index == 0 {
                v
            } else {
                vstd::pervasive::unreached()
            },
            OneOrMany::Many(vec) => &mut vec[index],
        }
    }
}

} // verus!
