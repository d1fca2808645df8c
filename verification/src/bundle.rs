//! Data bundles: the components attached to one entity.
//!
//! A bundle holds at most one value of each component kind. It is stored as a list of
//! entries in which a later entry of a kind replaces an earlier one, and it stands for
//! the map from kinds to values that this rule gives.

use crate::value::{Value, ValueView};
use vstd::prelude::*;

verus! {

/// One entry of a bundle: a value of the given component kind.
#[derive(Debug)]
pub struct Component {
    pub kind: u64,
    pub value: Value,
}

impl Clone for Component {
    fn clone(&self) -> (r: Component)
        ensures
            r.kind == self.kind,
            r.value@ == self.value@,
    {
        Component { kind: self.kind, value: self.value.clone() }
    }
}

/// The map that a list of entries stands for: the last entry of each kind counts.
spec fn components_map(items: Seq<Component>) -> Map<u64, ValueView>
    decreases items.len(),
{
    if items.len() == 0 {
        Map::empty()
    } else {
        components_map(items.drop_last()).insert(items.last().kind, items.last().value@)
    }
}

/// Appending an entry sets its kind to its value.
proof fn lemma_components_map_push(items: Seq<Component>, entry: Component)
    ensures
        components_map(items.push(entry)) == components_map(items).insert(
            entry.kind,
            entry.value@,
        ),
{
    assert(items.push(entry).drop_last() =~= items);
}

/// A kind that no entry has is not in the map.
proof fn lemma_components_map_absent(items: Seq<Component>, kind: u64)
    requires
        forall|j: int| 0 <= j < items.len() ==> items[j].kind != kind,
    ensures
        !components_map(items).contains_key(kind),
    decreases items.len(),
{
    if items.len() > 0 {
        lemma_components_map_absent(items.drop_last(), kind);
    }
}

/// The last entry of a kind gives the kind's value.
proof fn lemma_components_map_last(items: Seq<Component>, at: int, kind: u64)
    requires
        0 <= at < items.len(),
        items[at].kind == kind,
        forall|j: int| at < j < items.len() ==> items[j].kind != kind,
    ensures
        components_map(items).contains_key(kind),
        components_map(items)[kind] == items[at].value@,
    decreases items.len(),
{
    if at < items.len() - 1 {
        lemma_components_map_last(items.drop_last(), at, kind);
    }
}

/// Concatenation lets the entries on the right replace those on the left.
proof fn lemma_components_map_concat(left: Seq<Component>, right: Seq<Component>)
    ensures
        components_map(left + right) == components_map(left).union_prefer_right(
            components_map(right),
        ),
    decreases right.len(),
{
    if right.len() == 0 {
        assert(left + right =~= left);
        assert(components_map(left).union_prefer_right(Map::empty()) =~= components_map(left));
    } else {
        lemma_components_map_concat(left, right.drop_last());
        assert((left + right).drop_last() =~= left + right.drop_last());
        assert((left + right).last() == right.last());
        assert(components_map(left + right) =~= components_map(left).union_prefer_right(
            components_map(right),
        ));
    }
}

/// Whether `components` has a value of every kind that `kinds` lists.
pub open spec fn bears_all(components: Map<u64, ValueView>, kinds: Seq<u64>) -> bool {
    forall|j: int| 0 <= j < kinds.len() ==> components.contains_key(#[trigger] kinds[j])
}

/// The components of one entity, at most one of each kind.
#[derive(Debug)]
pub struct Bundle {
    items: Vec<Component>,
}

impl View for Bundle {
    type V = Map<u64, ValueView>;

    closed spec fn view(&self) -> Map<u64, ValueView> {
        components_map(self.items@)
    }
}

impl Clone for Bundle {
    /// An independent copy with the same components.
    fn clone(&self) -> (r: Bundle)
        ensures
            r@ == self@,
    {
        let mut items: Vec<Component> = Vec::new();
        let mut i: usize = 0;
        while i < self.items.len()
            invariant
                i <= self.items.len(),
                components_map(items@) == components_map(self.items@.take(i as int)),
            decreases self.items.len() - i,
        {
            let entry = self.items[i].clone();
            proof {
                lemma_components_map_push(items@, entry);
                lemma_components_map_push(self.items@.take(i as int), self.items@[i as int]);
                assert(self.items@.take(i as int).push(self.items@[i as int])
                    =~= self.items@.take(i as int + 1));
            }
            items.push(entry);
            i += 1;
        }
        assert(self.items@.take(i as int) =~= self.items@);
        Bundle { items }
    }
}

impl Default for Bundle {
    fn default() -> (r: Bundle)
        ensures
            r@ == Map::<u64, ValueView>::empty(),
    {
        Bundle::new()
    }
}

impl Bundle {
    /// The bundle without components.
    pub fn new() -> (r: Bundle)
        ensures
            r@ == Map::<u64, ValueView>::empty(),
    {
        Bundle { items: Vec::new() }
    }

    /// The bundle with one component.
    pub fn single(kind: u64, value: Value) -> (r: Bundle)
        ensures
            r@ == Map::<u64, ValueView>::empty().insert(kind, value@),
    {
        let mut r = Bundle::new();
        r.insert(kind, value);
        r
    }

    /// This bundle with the component of `kind` set to `value`.
    pub fn with(self, kind: u64, value: Value) -> (r: Bundle)
        ensures
            r@ == self@.insert(kind, value@),
    {
        let mut r = self;
        r.insert(kind, value);
        r
    }

    /// Whether the bundle has a component of `kind`.
    pub fn contains(&self, kind: u64) -> (r: bool)
        ensures
            r == self@.contains_key(kind),
    {
        self.find(kind).is_some()
    }

    /// A copy of the component of `kind`, if the bundle has one.
    pub fn get(&self, kind: u64) -> (r: Option<Value>)
        ensures
            r is Some <==> self@.contains_key(kind),
            r matches Some(v) ==> v@ == self@[kind],
    {
        match self.find(kind) {
            Some(at) => Some(self.items[at].value.clone()),
            None => None,
        }
    }

    /// Sets the component of `kind` to `value`, replacing the one that was there.
    pub fn insert(&mut self, kind: u64, value: Value)
        ensures
            final(self)@ == old(self)@.insert(kind, value@),
    {
        self.discard(kind);
        let entry = Component { kind, value };
        proof {
            lemma_components_map_push(self.items@, entry);
            assert(old(self)@.remove(kind).insert(kind, value@) =~= old(self)@.insert(
                kind,
                value@,
            ));
        }
        self.items.push(entry);
    }

    /// Takes the component of `kind` out of the bundle and returns its value.
    pub fn remove(&mut self, kind: u64) -> (r: Option<Value>)
        ensures
            final(self)@ == old(self)@.remove(kind),
            r is Some <==> old(self)@.contains_key(kind),
            r matches Some(v) ==> v@ == old(self)@[kind],
    {
        let taken = self.get(kind);
        self.discard(kind);
        taken
    }

    /// Adds the components of `other`; where both have a kind, that of `other` stays.
    pub fn merge(&mut self, other: &Bundle)
        ensures
            final(self)@ == old(self)@.union_prefer_right(other@),
    {
        let mut i: usize = 0;
        while i < other.items.len()
            invariant
                i <= other.items.len(),
                components_map(self.items@) == components_map(
                    old(self).items@ + other.items@.take(i as int),
                ),
            decreases other.items.len() - i,
        {
            let entry = other.items[i].clone();
            proof {
                let before = old(self).items@ + other.items@.take(i as int);
                lemma_components_map_push(self.items@, entry);
                lemma_components_map_push(before, other.items@[i as int]);
                assert(before.push(other.items@[i as int]) =~= old(self).items@
                    + other.items@.take(i as int + 1));
            }
            self.items.push(entry);
            i += 1;
        }
        proof {
            assert(other.items@.take(i as int) =~= other.items@);
            lemma_components_map_concat(old(self).items@, other.items@);
        }
    }

    /// The components of the listed kinds, if the bundle has every one of them.
    pub fn project(&self, kinds: &Vec<u64>) -> (r: Option<Bundle>)
        ensures
            r is Some <==> bears_all(self@, kinds@),
            r matches Some(b) ==> b@ == self@.restrict(kinds@.to_set()),
    {
        let mut picked = Bundle::new();
        let mut i: usize = 0;
        while i < kinds.len()
            invariant
                i <= kinds.len(),
                bears_all(self@, kinds@.take(i as int)),
                picked@ == self@.restrict(kinds@.take(i as int).to_set()),
            decreases kinds.len() - i,
        {
            match self.get(kinds[i]) {
                Some(value) => {
                    proof {
                        assert(kinds@.take(i as int + 1) =~= kinds@.take(i as int).push(
                            kinds[i as int],
                        ));
                        assert(kinds@.take(i as int).push(kinds[i as int]).to_set()
                            =~= kinds@.take(i as int).to_set().insert(kinds[i as int])) by {
                            vstd::seq_lib::seq_to_set_is_finite(kinds@.take(i as int));
                            assert forall|k: u64|
                                kinds@.take(i as int).push(kinds[i as int]).to_set().contains(k)
                                    == kinds@.take(i as int).to_set().insert(
                                    kinds[i as int],
                                ).contains(k) by {
                                lemma_push_contains(kinds@.take(i as int), kinds[i as int], k);
                            }
                        }
                        assert(self@.restrict(kinds@.take(i as int).to_set()).insert(
                            kinds[i as int],
                            value@,
                        ) =~= self@.restrict(
                            kinds@.take(i as int).to_set().insert(kinds[i as int]),
                        ));
                    }
                    picked.insert(kinds[i], value);
                },
                None => {
                    assert(!self@.contains_key(kinds@[i as int]));
                    return None;
                },
            }
            i += 1;
        }
        assert(kinds@.take(i as int) =~= kinds@);
        Some(picked)
    }

    /// The position of the entry that counts for `kind`.
    fn find(&self, kind: u64) -> (r: Option<usize>)
        ensures
            r is Some <==> self@.contains_key(kind),
            r matches Some(at) ==> at < self.items.len() && self.items[at as int].value@
                == self@[kind],
    {
        let mut i: usize = self.items.len();
        while i > 0
            invariant
                i <= self.items.len(),
                forall|j: int| i <= j < self.items.len() ==> self.items[j].kind != kind,
            decreases i,
        {
            i -= 1;
            if self.items[i].kind == kind {
                proof {
                    lemma_components_map_last(self.items@, i as int, kind);
                }
                return Some(i);
            }
        }
        proof {
            lemma_components_map_absent(self.items@, kind);
        }
        None
    }

    /// Drops every entry of `kind`.
    fn discard(&mut self, kind: u64)
        ensures
            final(self)@ == old(self)@.remove(kind),
    {
        let mut kept: Vec<Component> = Vec::new();
        let mut i: usize = 0;
        while i < self.items.len()
            invariant
                i <= self.items.len(),
                components_map(kept@) == components_map(self.items@.take(i as int)).remove(kind),
            decreases self.items.len() - i,
        {
            proof {
                let seen = self.items@.take(i as int);
                let entry = self.items@[i as int];
                assert(seen.push(entry) =~= self.items@.take(i as int + 1));
                lemma_components_map_push(seen, entry);
                if entry.kind == kind {
                    assert(components_map(seen).insert(kind, entry.value@).remove(kind)
                        =~= components_map(seen).remove(kind));
                } else {
                    assert(components_map(seen).insert(entry.kind, entry.value@).remove(kind)
                        =~= components_map(seen).remove(kind).insert(entry.kind, entry.value@));
                }
            }
            if self.items[i].kind != kind {
                let entry = self.items[i].clone();
                proof {
                    lemma_components_map_push(kept@, entry);
                }
                kept.push(entry);
            }
            i += 1;
        }
        assert(self.items@.take(i as int) =~= self.items@);
        self.items = kept;
    }
}

/// Data that can be copied into a bundle of its own.
pub trait ClonedBundle {
    /// The components that the copy bears.
    spec fn components(&self) -> Map<u64, ValueView>;

    /// An independent bundle with a copy of each component.
    fn cloned_bundle(&self) -> (r: Bundle)
        ensures
            r@ == self.components(),
    ;
}

impl ClonedBundle for Component {
    open spec fn components(&self) -> Map<u64, ValueView> {
        Map::<u64, ValueView>::empty().insert(self.kind, self.value@)
    }

    fn cloned_bundle(&self) -> (r: Bundle) {
        Bundle::single(self.kind, self.value.clone())
    }
}

impl ClonedBundle for Bundle {
    open spec fn components(&self) -> Map<u64, ValueView> {
        self@
    }

    fn cloned_bundle(&self) -> (r: Bundle) {
        self.clone()
    }
}

/// Membership in a sequence after one more element was appended.
proof fn lemma_push_contains(s: Seq<u64>, x: u64, k: u64)
    ensures
        s.push(x).to_set().contains(k) == (s.to_set().contains(k) || k == x),
{
    if s.push(x).to_set().contains(k) {
        let j = choose|j: int| 0 <= j < s.push(x).len() && s.push(x)[j] == k;
        if j < s.len() {
            assert(s[j] == k);
            assert(s.contains(k));
        }
    }
    if s.to_set().contains(k) {
        let j = choose|j: int| 0 <= j < s.len() && s[j] == k;
        assert(s.push(x)[j] == k);
        assert(s.push(x).contains(k));
    }
    if k == x {
        assert(s.push(x)[s.len() as int] == k);
        assert(s.push(x).contains(k));
    }
}

} // verus!
