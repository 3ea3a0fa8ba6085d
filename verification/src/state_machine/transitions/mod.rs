//! Transitions between states.
pub mod guard;

use vstd::prelude::*;

use crate::string::{DotString, DotStringInterner};
use guard::{bits_compare, compare_bits, guard_input, same_guard, Guard, TransitionGuardConditionType};

verus! {

/// The blend to run while settling into a transition's target state. Both
/// fields are IEEE-754 bit patterns of `f32` values: the duration in
/// milliseconds and the easing curve's four control values.
#[derive(Debug, Clone, Copy)]
pub struct Tween {
    pub duration: u32,
    pub easing: [u32; 4],
}

impl Default for Tween {
    /// An instant transition: zero duration, zero easing.
    fn default() -> (t: Self)
        ensures
            t.duration == 0,
            t.easing@ == seq![0u32, 0u32, 0u32, 0u32],
    {
        Tween { duration: 0, easing: [0, 0, 0, 0] }
    }
}

impl Tween {
    /// A duration of zero or less (as an `f32`) is an instant transition.
    pub fn is_instant(&self) -> (b: bool)
        ensures
            b == bits_compare(TransitionGuardConditionType::LessThanOrEqual, self.duration, 0),
    {
        compare_bits(&TransitionGuardConditionType::LessThanOrEqual, self.duration, 0)
    }
}

/// A way out of a state, into `to_state`, once all its guards hold.
#[derive(Debug, Clone)]
pub struct Transition {
    pub to_state: DotString,
    pub guards: Option<Vec<Guard>>,
    pub tween: Tween,
}

/// The guards of a transition; a transition without guards has none.
pub open spec fn guard_list(t: Transition) -> Seq<Guard> {
    match t.guards {
        Some(g) => g@,
        None => Seq::empty(),
    }
}

impl Transition {
    /// The guards, empty when there are none.
    pub fn guards(&self) -> (r: &[Guard])
        ensures
            r@ == guard_list(*self),
    {
        match &self.guards {
            Some(g) => g.as_slice(),
            None => &[],
        }
    }

    /// Whether one of the guards waits for an event.
    pub fn contains_event_guard(&self) -> (b: bool)
        ensures
            b == exists|i: int| 0 <= i < guard_list(*self).len() && guard_list(*self)[i] is Event,
    {
        let guards = self.guards();
        for i in 0..guards.len()
            invariant
                guards@ == guard_list(*self),
                forall|j: int| 0 <= j < i ==> !(guards@[j] is Event),
        {
            if let Guard::Event { .. } = &guards[i] {
                return true;
            }
        }
        false
    }
}

/// The inputs the guards of `gs` read.
pub open spec fn guard_inputs(gs: Seq<Guard>) -> Set<Seq<char>> {
    Set::new(|n: Seq<char>| exists|i: int| 0 <= i < gs.len() && guard_input(#[trigger] gs[i]) == n)
}

/// Whether two transitions are the same but for where their names are
/// stored.
pub open spec fn same_transition(a: Transition, b: Transition) -> bool {
    &&& a.to_state@ == b.to_state@
    &&& a.tween == b.tween
    &&& a.guards is Some == b.guards is Some
    &&& guard_list(a).len() == guard_list(b).len()
    &&& forall|i: int| 0 <= i < guard_list(a).len() ==> same_guard(#[trigger] guard_list(a)[i], guard_list(b)[i])
}

/// Give each guard in `guards` the interner's storage for its input name.
pub fn intern_guards(guards: Vec<Guard>, interner: &mut DotStringInterner) -> (r: Vec<Guard>)
    ensures
        r@.len() == guards@.len(),
        forall|i: int| 0 <= i < guards@.len() ==> same_guard(#[trigger] guards@[i], r@[i]),
        final(interner)@ == old(interner)@.union(guard_inputs(guards@)),
{
    let ghost all = guards@;
    let ghost start = interner@;
    let mut done: Vec<Guard> = Vec::new();
    assert(start.union(guard_inputs(all.take(0))) =~= start);
    for g in it: guards.into_iter()
        invariant
            it.seq() == all,
            done@.len() == it.index(),
            forall|i: int| 0 <= i < it.index() ==> same_guard(#[trigger] all[i], done@[i]),
            interner@ == start.union(guard_inputs(all.take(it.index()))),
    {
        let ghost k = it.index();
        let mut g = g;
        g.intern_identifiers(interner);
        done.push(g);
        assert(guard_inputs(all.take(k + 1)) =~= guard_inputs(all.take(k)).insert(guard_input(all[k])))
            by {
            assert forall|n: Seq<char>| #[trigger] guard_inputs(all.take(k + 1)).contains(n) <==> (guard_inputs(
                all.take(k),
            ).contains(n) || n == guard_input(all[k])) by {
                if guard_inputs(all.take(k + 1)).contains(n) {
                    let i = choose|i: int| 0 <= i < k + 1 && guard_input(#[trigger] all.take(k + 1)[i]) == n;
                    if i < k {
                        assert(all.take(k)[i] == all.take(k + 1)[i]);
                    }
                }
                if guard_inputs(all.take(k)).contains(n) {
                    let i = choose|i: int| 0 <= i < k && guard_input(#[trigger] all.take(k)[i]) == n;
                    assert(all.take(k + 1)[i] == all.take(k)[i]);
                }
                if n == guard_input(all[k]) {
                    assert(all.take(k + 1)[k] == all[k]);
                }
            }
        }
        assert(start.union(guard_inputs(all.take(k))).insert(guard_input(all[k])) =~= start.union(
            guard_inputs(all.take(k + 1)),
        ));
    }
    assert(all.take(all.len() as int) =~= all);
    done
}

impl Transition {
    /// Give the target state's name and the guards' input names the
    /// interner's storage for those texts.
    pub fn intern_identifiers(&mut self, interner: &mut DotStringInterner)
        ensures
            same_transition(*old(self), *final(self)),
            final(interner)@ == old(interner)@.insert(old(self).to_state@).union(
                guard_inputs(guard_list(*old(self))),
            ),
    {
        self.to_state = interner.intern(self.to_state.as_str());
        let mut taken: Option<Vec<Guard>> = None;
        std::mem::swap(&mut taken, &mut self.guards);
        match taken {
            Some(guards) => {
                self.guards = Some(intern_guards(guards, interner));
            },
            None => {
                assert(guard_inputs(Seq::<Guard>::empty()) =~= Set::<Seq<char>>::empty());
                assert(interner@ =~= interner@.union(Set::<Seq<char>>::empty()));
            },
        }
    }
}

} // verus!
