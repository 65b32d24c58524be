use crate::action::{lemma_index_bijection, Action, ACTION_COUNT};
use crate::rng::random_below;
use rand::rngs::SmallRng;
use vstd::prelude::*;

verus! {

/// Whether bit `i` of `x` is set.
pub open spec fn bit_set(x: u32, i: nat) -> bool {
    i < 32 && (x >> (i as u32)) & 1u32 == 1u32
}

proof fn lemma_bit_zero(i: u32)
    ensures
        (0u32 >> i) & 1u32 != 1u32,
{
    assert((0u32 >> i) & 1u32 == 0u32) by (bit_vector);
}

proof fn lemma_bit_or(x: u32, i: u32, j: u32)
    requires
        i < 32,
        j < 32,
    ensures
        ((x | (1u32 << i)) >> j) & 1u32 == 1u32 <==> (i == j || (x >> j) & 1u32 == 1u32),
{
    assert(((x | (1u32 << i)) >> j) & 1u32 == 1u32 <==> (i == j || (x >> j) & 1u32 == 1u32))
        by (bit_vector)
        requires
            i < 32,
            j < 32,
    ;
}

proof fn lemma_bit_clear(x: u32, i: u32, j: u32)
    requires
        i < 32,
        j < 32,
    ensures
        ((x & !(1u32 << i)) >> j) & 1u32 == 1u32 <==> (i != j && (x >> j) & 1u32 == 1u32),
{
    assert(((x & !(1u32 << i)) >> j) & 1u32 == 1u32 <==> (i != j && (x >> j) & 1u32 == 1u32))
        by (bit_vector)
        requires
            i < 32,
            j < 32,
    ;
}

proof fn lemma_bounds(x: u32, i: u32)
    requires
        x < 0x8000_0000u32,
        i < 31,
    ensures
        x | (1u32 << i) < 0x8000_0000u32,
        x & !(1u32 << i) < 0x8000_0000u32,
        (x >> 31u32) & 1u32 != 1u32,
{
    assert(x | (1u32 << i) < 0x8000_0000u32) by (bit_vector)
        requires
            x < 0x8000_0000u32,
            i < 31,
    ;
    assert(x & !(1u32 << i) < 0x8000_0000u32) by (bit_vector)
        requires
            x < 0x8000_0000u32,
    ;
    assert((x >> 31u32) & 1u32 != 1u32) by (bit_vector)
        requires
            x < 0x8000_0000u32,
    ;
}

/// A set of actions, one bit per catalog position.
#[derive(Debug, Clone, Copy, PartialEq, Eq)]
pub struct ActionSet {
    bits: u32,
}

impl View for ActionSet {
    type V = Set<Action>;

    closed spec fn view(&self) -> Set<Action> {
        Set::new(|a: Action| bit_set(self.bits, a.spec_index()))
    }
}

impl ActionSet {
    #[verifier::type_invariant]
    spec fn inv(&self) -> bool {
        self.bits < 0x8000_0000u32
    }

    fn bit_from_action(action: Action) -> (r: u32)
        ensures
            r == 1u32 << (action.spec_index() as u32),
    {
        1u32 << (action.index() as u32)
    }

    /// Adds `action` to the set.
    pub fn set(&mut self, action: Action)
        ensures
            final(self)@ == old(self)@.insert(action),
    {
        proof {
            use_type_invariant(&*self);
        }
        let i = action.index() as u32;
        let old_bits = self.bits;
        proof {
            lemma_bounds(old_bits, i);
        }
        self.bits = self.bits | Self::bit_from_action(action);
        proof {
            assert forall|a: Action| #[trigger] self@.contains(a) == old(self)@.insert(action).contains(a) by {
                lemma_index_bijection();
                lemma_bit_or(old_bits, i, a.spec_index() as u32);
            }
            assert(self@ =~= old(self)@.insert(action));
        }
    }

    /// Removes `action` from the set.
    pub fn unset(&mut self, action: Action)
        ensures
            final(self)@ == old(self)@.remove(action),
    {
        proof {
            use_type_invariant(&*self);
        }
        let i = action.index() as u32;
        let old_bits = self.bits;
        proof {
            lemma_bounds(old_bits, i);
        }
        self.bits = self.bits & !Self::bit_from_action(action);
        proof {
            assert forall|a: Action| #[trigger] self@.contains(a) == old(self)@.remove(action).contains(a) by {
                lemma_index_bijection();
                lemma_bit_clear(old_bits, i, a.spec_index() as u32);
            }
            assert(self@ =~= old(self)@.remove(action));
        }
    }

    /// The empty set.
    pub fn new() -> (r: ActionSet)
        ensures
            r@ == Set::<Action>::empty(),
    {
        let r = ActionSet { bits: 0 };
        proof {
            assert forall|a: Action| !(#[trigger] r@.contains(a)) by {
                lemma_bit_zero(a.spec_index() as u32);
            }
            assert(r@ =~= Set::<Action>::empty());
        }
        r
    }

    /// The set of the actions listed in `actions`.
    pub fn from_vec(actions: &Vec<Action>) -> (r: ActionSet)
        ensures
            r@ == actions@.to_set(),
    {
        let mut instance = ActionSet::new();
        let mut i: usize = 0;
        while i < actions.len()
            invariant
                i <= actions.len(),
                instance@ == actions@.subrange(0, i as int).to_set(),
            decreases actions.len() - i,
        {
            instance.set(actions[i]);
            proof {
                assert(actions@.subrange(0, i + 1) =~= actions@.subrange(0, i as int).push(actions@[i as int]));
                actions@.subrange(0, i as int).lemma_push_to_set_commute(actions@[i as int]);
            }
            i += 1;
        }
        assert(actions@.subrange(0, i as int) =~= actions@);
        instance
    }

    /// Whether `action` is in the set.
    pub fn contains(&self, action: Action) -> (r: bool)
        ensures
            r == self@.contains(action),
    {
        (self.bits >> (action.index() as u32)) & 1u32 == 1u32
    }

    /// Keeps the actions for which `f` returns `true` and removes the others,
    /// like `Vec::retain`.
    pub fn keep<F: Fn(Action) -> bool>(&mut self, f: F)
        requires
            forall|a: Action| #[trigger] f.requires((a,)),
        ensures
            forall|a: Action|
                #[trigger] final(self)@.contains(a) ==> old(self)@.contains(a) && f.ensures((a,), true),
            forall|a: Action|
                old(self)@.contains(a) && !(#[trigger] final(self)@.contains(a)) ==> f.ensures((a,), false),
    {
        let mut index: usize = 0;
        while index < ACTION_COUNT
            invariant
                index <= ACTION_COUNT,
                forall|a: Action| #[trigger] f.requires((a,)),
                forall|a: Action|
                    a.spec_index() >= index ==> (#[trigger] self@.contains(a) == old(self)@.contains(a)),
                forall|a: Action|
                    a.spec_index() < index && #[trigger] self@.contains(a) ==> old(self)@.contains(a) && f.ensures((a,), true),
                forall|a: Action|
                    a.spec_index() < index && old(self)@.contains(a) && !(#[trigger] self@.contains(a)) ==> f.ensures((a,), false),
            decreases ACTION_COUNT - index,
        {
            proof {
                lemma_index_bijection();
            }
            let action = Action::from_index(index).unwrap();
            if self.contains(action) {
                if !f(action) {
                    self.unset(action);
                }
            }
            index += 1;
        }
    }

    /// The actions of the set in catalog order.
    pub fn to_vec(&self) -> (r: Vec<Action>)
        ensures
            forall|k: int| 0 <= k < r@.len() ==> self@.contains(#[trigger] r@[k]),
            forall|a: Action| self@.contains(a) ==> #[trigger] r@.contains(a),
            forall|k1: int, k2: int|
                0 <= k1 < k2 < r@.len() ==> (#[trigger] r@[k1]).spec_index() < (#[trigger] r@[k2]).spec_index(),
            r@.len() <= ACTION_COUNT,
    {
        let mut actions: Vec<Action> = Vec::new();
        let mut index: usize = 0;
        while index < ACTION_COUNT
            invariant
                index <= ACTION_COUNT,
                actions@.len() <= index,
                forall|k: int| 0 <= k < actions@.len() ==> self@.contains(#[trigger] actions@[k]),
                forall|k: int| 0 <= k < actions@.len() ==> (#[trigger] actions@[k]).spec_index() < index,
                forall|a: Action| self@.contains(a) && a.spec_index() < index ==> #[trigger] actions@.contains(a),
                forall|k1: int, k2: int|
                    0 <= k1 < k2 < actions@.len() ==> (#[trigger] actions@[k1]).spec_index() < (#[trigger] actions@[k2]).spec_index(),
            decreases ACTION_COUNT - index,
        {
            proof {
                lemma_index_bijection();
            }
            let action = Action::from_index(index).unwrap();
            if self.contains(action) {
                let ghost before = actions@;
                actions.push(action);
                proof {
                    assert forall|a: Action| self@.contains(a) && a.spec_index() < index + 1 implies #[trigger] actions@.contains(a) by {
                        if a.spec_index() < index {
                            assert(before.contains(a));
                            let k = choose|k: int| 0 <= k < before.len() && before[k] == a;
                            assert(actions@[k] == before[k]);
                        } else {
                            assert(actions@[before.len() as int] == a);
                        }
                    }
                }
            } else {
                proof {
                    assert forall|a: Action| self@.contains(a) && a.spec_index() < index + 1 implies #[trigger] actions@.contains(a) by {
                        if a.spec_index() == index {
                            assert(a == action);
                        }
                    }
                }
            }
            index += 1;
        }
        proof {
            lemma_index_bijection();
        }
        actions
    }

    /// Number of actions in the set.
    pub fn len(&self) -> (r: u32)
        ensures
            self@.finite(),
            r == self@.len(),
    {
        let actions = self.to_vec();
        proof {
            self.lemma_to_vec_len(actions@);
        }
        actions.len() as u32
    }

    proof fn lemma_to_vec_len(&self, v: Seq<Action>)
        requires
            forall|k: int| 0 <= k < v.len() ==> self@.contains(#[trigger] v[k]),
            forall|a: Action| self@.contains(a) ==> #[trigger] v.contains(a),
            forall|k1: int, k2: int|
                0 <= k1 < k2 < v.len() ==> (#[trigger] v[k1]).spec_index() < (#[trigger] v[k2]).spec_index(),
        ensures
            self@.finite(),
            self@.len() == v.len(),
    {
        assert(v.no_duplicates()) by {
            assert forall|i: int, j: int| 0 <= i < v.len() && 0 <= j < v.len() && i != j implies v[i] != v[j] by {
                if i < j {
                    assert(v[i].spec_index() < v[j].spec_index());
                } else {
                    assert(v[j].spec_index() < v[i].spec_index());
                }
            }
        }
        assert(v.to_set() =~= self@);
        v.unique_seq_to_set();
        broadcast use vstd::seq_lib::seq_to_set_is_finite;
    }

    /// Whether the set has no action.
    pub fn is_empty(&self) -> (r: bool)
        ensures
            r == (self@ == Set::<Action>::empty()),
    {
        proof {
            use_type_invariant(self);
        }
        let r = self.bits == 0;
        proof {
            if r {
                assert forall|a: Action| !(#[trigger] self@.contains(a)) by {
                    lemma_bit_zero(a.spec_index() as u32);
                }
                assert(self@ =~= Set::<Action>::empty());
            } else {
                vstd::std_specs::bits::axiom_u32_trailing_zeros(self.bits);
                let tz = vstd::std_specs::bits::u32_trailing_zeros(self.bits);
                lemma_bounds(self.bits, 0);
                lemma_index_bijection();
                assert(tz < 31);
                let a = Action::spec_from_index(tz as nat)->0;
                assert(a.spec_index() == tz);
                assert(bit_set(self.bits, tz as nat));
                assert(self@.contains(a));
            }
        }
        r
    }

    /// A uniformly drawn member of the set, which stays in it.
    pub fn sample(&self, rng: &mut SmallRng) -> (r: Action)
        requires
            self@ != Set::<Action>::empty(),
        ensures
            self@.contains(r),
    {
        let actions = self.to_vec();
        proof {
            if forall|a: Action| !(#[trigger] self@.contains(a)) {
                assert(self@ =~= Set::<Action>::empty());
            }
            let a = choose|a: Action| self@.contains(a);
            assert(actions@.contains(a));
        }
        let k = random_below(rng, actions.len());
        actions[k]
    }

    /// Removes a uniformly drawn member of the set and returns it.
    pub fn pick(&mut self, rng: &mut SmallRng) -> (r: Action)
        requires
            old(self)@ != Set::<Action>::empty(),
        ensures
            old(self)@.contains(r),
            final(self)@ == old(self)@.remove(r),
    {
        let action = self.sample(rng);
        self.unset(action);
        action
    }
}

impl Default for ActionSet {
    fn default() -> (r: ActionSet)
        ensures
            r@ == Set::<Action>::empty(),
    {
        ActionSet::new()
    }
}

} // verus!
