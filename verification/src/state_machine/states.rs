//! States of a state machine.
use vstd::prelude::*;

use crate::state_machine::transitions::{guard_inputs, guard_list, same_transition, Transition};
use crate::string::{DotString, DotStringInterner};

verus! {

/// A state: a playback state plays an animation with its settings; the global
/// state's transitions are looked at from every state. Numeric settings hold
/// IEEE-754 bit patterns of `f32` values.
#[derive(Debug, Clone)]
pub enum State {
    PlaybackState {
        name: DotString,
        transitions: Vec<Transition>,
        animation: DotString,
        looping: Option<bool>,
        loop_count: Option<u32>,
        is_final: Option<bool>,
        autoplay: Option<bool>,
        speed: Option<u32>,
        segment: Option<String>,
        background_color: Option<u32>,
    },
    GlobalState { name: DotString, transitions: Vec<Transition> },
}

/// The name of a state.
pub open spec fn state_name(s: State) -> Seq<char> {
    match s {
        State::PlaybackState { name, .. } => name@,
        State::GlobalState { name, .. } => name@,
    }
}

/// The transitions out of a state.
pub open spec fn state_transitions(s: State) -> Seq<Transition> {
    match s {
        State::PlaybackState { transitions, .. } => transitions@,
        State::GlobalState { transitions, .. } => transitions@,
    }
}

impl State {
    /// The state's name.
    pub fn name(&self) -> (n: &DotString)
        ensures
            n@ == state_name(*self),
    {
        match self {
            State::PlaybackState { name, .. } => name,
            State::GlobalState { name, .. } => name,
        }
    }

    /// The transitions out of the state.
    pub fn transitions(&self) -> (t: &Vec<Transition>)
        ensures
            t@ == state_transitions(*self),
    {
        match self {
            State::PlaybackState { transitions, .. } => transitions,
            State::GlobalState { transitions, .. } => transitions,
        }
    }

    /// The animation a playback state plays; empty for the global state.
    pub fn animation(&self) -> (a: &str)
        ensures
            a@ == match *self {
                State::PlaybackState { animation, .. } => animation@,
                State::GlobalState { .. } => Seq::<char>::empty(),
            },
    {
        match self {
            State::PlaybackState { animation, .. } => animation.as_str(),
            State::GlobalState { .. } => {
                proof {
                    reveal_strlit("");
                }
                ""
            },
        }
    }

    /// The kind of state, as the definition format names it.
    pub fn get_type(&self) -> (t: String)
        ensures
            t@ == match *self {
                State::PlaybackState { .. } => "PlaybackState"@,
                State::GlobalState { .. } => "GlobalState"@,
            },
    {
        match self {
            State::PlaybackState { .. } => "PlaybackState".to_owned(),
            State::GlobalState { .. } => "GlobalState".to_owned(),
        }
    }
}

/// The names a transition mentions: its target state and its guards' inputs.
pub open spec fn transition_names(t: Transition) -> Set<Seq<char>> {
    Set::<Seq<char>>::empty().insert(t.to_state@).union(guard_inputs(guard_list(t)))
}

/// The names a list of transitions mentions.
pub open spec fn transitions_names(ts: Seq<Transition>) -> Set<Seq<char>>
    decreases ts.len(),
{
    if ts.len() == 0 {
        Set::empty()
    } else {
        transitions_names(ts.drop_last()).union(transition_names(ts.last()))
    }
}

/// The names a state mentions: its own, its animation's, and its
/// transitions'.
pub open spec fn state_names(s: State) -> Set<Seq<char>> {
    match s {
        State::PlaybackState { name, animation, transitions, .. } => Set::<Seq<char>>::empty().insert(
            name@,
        ).insert(animation@).union(transitions_names(transitions@)),
        State::GlobalState { name, transitions } => Set::<Seq<char>>::empty().insert(name@).union(
            transitions_names(transitions@),
        ),
    }
}

/// Whether two lists of transitions are the same but for where their names
/// are stored.
pub open spec fn same_transitions(a: Seq<Transition>, b: Seq<Transition>) -> bool {
    a.len() == b.len() && forall|i: int| 0 <= i < a.len() ==> same_transition(#[trigger] a[i], b[i])
}

/// Whether two states are the same but for where their names are stored.
pub open spec fn same_state(a: State, b: State) -> bool {
    match (a, b) {
        (
            State::PlaybackState {
                name: n1,
                transitions: t1,
                animation: a1,
                looping: l1,
                loop_count: c1,
                is_final: f1,
                autoplay: p1,
                speed: s1,
                segment: g1,
                background_color: b1,
            },
            State::PlaybackState {
                name: n2,
                transitions: t2,
                animation: a2,
                looping: l2,
                loop_count: c2,
                is_final: f2,
                autoplay: p2,
                speed: s2,
                segment: g2,
                background_color: b2,
            },
        ) => n1@ == n2@ && a1@ == a2@ && same_transitions(t1@, t2@) && l1 == l2 && c1 == c2 && f1 == f2
            && p1 == p2 && s1 == s2 && g1 == g2 && b1 == b2,
        (
            State::GlobalState { name: n1, transitions: t1 },
            State::GlobalState { name: n2, transitions: t2 },
        ) => n1@ == n2@ && same_transitions(t1@, t2@),
        _ => false,
    }
}

/// Give every transition the interner's storage for its names.
fn intern_transitions(transitions: Vec<Transition>, interner: &mut DotStringInterner) -> (r: Vec<
    Transition,
>)
    ensures
        same_transitions(transitions@, r@),
        final(interner)@ == old(interner)@.union(transitions_names(transitions@)),
{
    let ghost all = transitions@;
    let ghost start = interner@;
    let mut done: Vec<Transition> = Vec::new();
    assert(all.take(0) =~= Seq::<Transition>::empty());
    assert(start.union(transitions_names(all.take(0))) =~= start);
    for t in it: transitions.into_iter()
        invariant
            it.seq() == all,
            done@.len() == it.index(),
            forall|i: int| 0 <= i < it.index() ==> same_transition(#[trigger] all[i], done@[i]),
            interner@ == start.union(transitions_names(all.take(it.index()))),
    {
        let ghost k = it.index();
        let mut t = t;
        t.intern_identifiers(interner);
        done.push(t);
        proof {
            assert(all.take(k + 1).drop_last() =~= all.take(k));
            assert(all.take(k + 1).last() == all[k]);
            assert(start.union(transitions_names(all.take(k))).insert(all[k].to_state@).union(
                guard_inputs(guard_list(all[k])),
            ) =~= start.union(transitions_names(all.take(k + 1))));
        }
    }
    assert(all.take(all.len() as int) =~= all);
    done
}

impl State {
    /// Give the state's names the interner's storage for those texts.
    pub fn intern_identifiers(&mut self, interner: &mut DotStringInterner)
        ensures
            same_state(*old(self), *final(self)),
            final(interner)@ == old(interner)@.union(state_names(*old(self))),
    {
        let ghost start = interner@;
        match self {
            State::PlaybackState { name, transitions, animation, .. } => {
                *name = interner.intern(name.as_str());
                *animation = interner.intern(animation.as_str());
                let mut taken: Vec<Transition> = Vec::new();
                std::mem::swap(&mut taken, transitions);
                *transitions = intern_transitions(taken, interner);
            },
            State::GlobalState { name, transitions } => {
                *name = interner.intern(name.as_str());
                let mut taken: Vec<Transition> = Vec::new();
                std::mem::swap(&mut taken, transitions);
                *transitions = intern_transitions(taken, interner);
            },
        }
        assert(interner@ =~= start.union(state_names(*old(self))));
    }
}

} // verus!
