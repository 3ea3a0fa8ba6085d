//! Interactions: actions to run when the pointer acts on a layer, when a
//! state completes, when an input changes or when a motion finishes.
use vstd::prelude::*;

use crate::state_machine::actions::{action_input, same_action, Action};
use crate::string::{DotString, DotStringInterner};

verus! {

/// Actions bound to something that happens.
#[derive(Debug)]
pub enum Interaction {
    PointerUp { layer_name: Option<DotString>, actions: Vec<Action> },
    PointerDown { layer_name: Option<DotString>, actions: Vec<Action> },
    PointerEnter { layer_name: Option<DotString>, actions: Vec<Action> },
    PointerMove { actions: Vec<Action> },
    PointerExit { layer_name: Option<DotString>, actions: Vec<Action> },
    Click { layer_name: Option<DotString>, actions: Vec<Action> },
    OnComplete { state_name: DotString, actions: Vec<Action> },
    OnLoopComplete { state_name: DotString, actions: Vec<Action> },
    /// Runs whenever the named input's value changes.
    OnInputChange { input_name: DotString, actions: Vec<Action> },
    /// Runs when a named motion finishes its last step.
    OnMotionComplete { motion_name: DotString, actions: Vec<Action> },
}

/// The layer an interaction watches, if any.
pub open spec fn interaction_layer(i: Interaction) -> Option<Seq<char>> {
    let name = match i {
        Interaction::PointerUp { layer_name, .. } => layer_name,
        Interaction::PointerDown { layer_name, .. } => layer_name,
        Interaction::PointerEnter { layer_name, .. } => layer_name,
        Interaction::PointerExit { layer_name, .. } => layer_name,
        Interaction::Click { layer_name, .. } => layer_name,
        _ => None,
    };
    match name {
        Some(n) => Some(n@),
        None => None,
    }
}

/// The actions of an interaction.
pub open spec fn interaction_actions(i: Interaction) -> Seq<Action> {
    match i {
        Interaction::PointerUp { actions, .. } => actions@,
        Interaction::PointerDown { actions, .. } => actions@,
        Interaction::PointerEnter { actions, .. } => actions@,
        Interaction::PointerMove { actions } => actions@,
        Interaction::PointerExit { actions, .. } => actions@,
        Interaction::Click { actions, .. } => actions@,
        Interaction::OnComplete { actions, .. } => actions@,
        Interaction::OnLoopComplete { actions, .. } => actions@,
        Interaction::OnInputChange { actions, .. } => actions@,
        Interaction::OnMotionComplete { actions, .. } => actions@,
    }
}

/// The name an interaction is keyed on besides a layer: a state, an input
/// or a motion.
pub open spec fn interaction_key(i: Interaction) -> Option<Seq<char>> {
    match i {
        Interaction::OnComplete { state_name, .. } => Some(state_name@),
        Interaction::OnLoopComplete { state_name, .. } => Some(state_name@),
        Interaction::OnInputChange { input_name, .. } => Some(input_name@),
        Interaction::OnMotionComplete { motion_name, .. } => Some(motion_name@),
        _ => None,
    }
}

/// The inputs the actions of `s` work on.
pub open spec fn action_inputs(s: Seq<Action>) -> Set<Seq<char>> {
    Set::new(|n: Seq<char>| exists|i: int| 0 <= i < s.len() && action_input(#[trigger] s[i]) == Some(n))
}

/// The names an interaction mentions.
pub open spec fn interaction_names(i: Interaction) -> Set<Seq<char>> {
    let own = match interaction_layer(i) {
        Some(n) => Set::<Seq<char>>::empty().insert(n),
        None => Set::<Seq<char>>::empty(),
    };
    let keyed = match interaction_key(i) {
        Some(n) => own.insert(n),
        None => own,
    };
    keyed.union(action_inputs(interaction_actions(i)))
}

/// Whether two interactions are the same but for where their names are
/// stored.
pub open spec fn same_interaction(a: Interaction, b: Interaction) -> bool {
    &&& interaction_layer(a) == interaction_layer(b)
    &&& interaction_key(a) == interaction_key(b)
    &&& interaction_type(a) == interaction_type(b)
    &&& interaction_actions(a).len() == interaction_actions(b).len()
    &&& forall|k: int|
        0 <= k < interaction_actions(a).len() ==> same_action(
            #[trigger] interaction_actions(a)[k],
            interaction_actions(b)[k],
        )
}

/// The kind of an interaction, as the definition format names it.
pub open spec fn interaction_type(i: Interaction) -> Seq<char> {
    match i {
        Interaction::PointerUp { .. } => "PointerUp"@,
        Interaction::PointerDown { .. } => "PointerDown"@,
        Interaction::PointerEnter { .. } => "PointerEnter"@,
        Interaction::PointerMove { .. } => "PointerMove"@,
        Interaction::PointerExit { .. } => "PointerExit"@,
        Interaction::OnComplete { .. } => "OnComplete"@,
        Interaction::OnLoopComplete { .. } => "OnLoopComplete"@,
        Interaction::OnInputChange { .. } => "OnInputChange"@,
        Interaction::OnMotionComplete { .. } => "OnMotionComplete"@,
        Interaction::Click { .. } => "Click"@,
    }
}

/// What an interaction answers.
pub trait InteractionTrait {
    fn get_layer_name(&self) -> Option<&DotString>;

    fn get_state_name(&self) -> Option<String>;

    fn get_actions(&self) -> &Vec<Action>;

    /// The interaction's kind, as the definition format names it.
    fn interaction_type_name(&self) -> &'static str;
}

impl InteractionTrait for Interaction {
    /// The layer a pointer interaction watches, if any.
    fn get_layer_name(&self) -> (r: Option<&DotString>)
        ensures
            match r {
                Some(n) => interaction_layer(*self) == Some(n@),
                None => interaction_layer(*self) is None,
            },
    {
        match self {
            Interaction::PointerUp { layer_name, .. } => layer_name.as_ref(),
            Interaction::PointerDown { layer_name, .. } => layer_name.as_ref(),
            Interaction::PointerEnter { layer_name, .. } => layer_name.as_ref(),
            Interaction::PointerExit { layer_name, .. } => layer_name.as_ref(),
            Interaction::Click { layer_name, .. } => layer_name.as_ref(),
            _ => None,
        }
    }

    /// The state a completion interaction watches; none otherwise.
    fn get_state_name(&self) -> (r: Option<String>)
        ensures
            match *self {
                Interaction::OnComplete { state_name, .. } => r matches Some(s) && s@ == state_name@,
                Interaction::OnLoopComplete { state_name, .. } => r matches Some(s) && s@
                    == state_name@,
                _ => r is None,
            },
    {
        match self {
            Interaction::OnComplete { state_name, .. } => Some(state_name.as_str().to_owned()),
            Interaction::OnLoopComplete { state_name, .. } => Some(state_name.as_str().to_owned()),
            _ => None,
        }
    }

    /// The actions to run.
    fn get_actions(&self) -> (a: &Vec<Action>)
        ensures
            a@ == interaction_actions(*self),
    {
        match self {
            Interaction::PointerUp { actions, .. } => actions,
            Interaction::PointerDown { actions, .. } => actions,
            Interaction::PointerEnter { actions, .. } => actions,
            Interaction::PointerMove { actions } => actions,
            Interaction::PointerExit { actions, .. } => actions,
            Interaction::Click { actions, .. } => actions,
            Interaction::OnComplete { actions, .. } => actions,
            Interaction::OnLoopComplete { actions, .. } => actions,
            Interaction::OnInputChange { actions, .. } => actions,
            Interaction::OnMotionComplete { actions, .. } => actions,
        }
    }

    fn interaction_type_name(&self) -> (n: &'static str)
        ensures
            n@ == interaction_type(*self),
    {
        match self {
            Interaction::PointerUp { .. } => "PointerUp",
            Interaction::PointerDown { .. } => "PointerDown",
            Interaction::PointerEnter { .. } => "PointerEnter",
            Interaction::PointerMove { .. } => "PointerMove",
            Interaction::PointerExit { .. } => "PointerExit",
            Interaction::OnComplete { .. } => "OnComplete",
            Interaction::OnLoopComplete { .. } => "OnLoopComplete",
            Interaction::OnInputChange { .. } => "OnInputChange",
            Interaction::OnMotionComplete { .. } => "OnMotionComplete",
            Interaction::Click { .. } => "Click",
        }
    }
}

/// Give every action the interner's storage for its input name.
fn intern_actions(actions: &mut Vec<Action>, interner: &mut DotStringInterner)
    ensures
        final(actions)@.len() == old(actions)@.len(),
        forall|k: int| 0 <= k < old(actions)@.len() ==> same_action(#[trigger] old(actions)@[k], final(actions)@[k]),
        final(interner)@ == old(interner)@.union(action_inputs(old(actions)@)),
{
    let ghost all = actions@;
    let ghost start = interner@;
    let mut taken: Vec<Action> = Vec::new();
    std::mem::swap(&mut taken, actions);
    let mut done: Vec<Action> = Vec::new();
    assert(all.take(0) =~= Seq::<Action>::empty());
    assert(start.union(action_inputs(all.take(0))) =~= start);
    for a in it: taken.into_iter()
        invariant
            it.seq() == all,
            done@.len() == it.index(),
            forall|i: int| 0 <= i < it.index() ==> same_action(#[trigger] all[i], done@[i]),
            interner@ == start.union(action_inputs(all.take(it.index()))),
    {
        let ghost k = it.index();
        let mut a = a;
        a.intern_identifiers(interner);
        done.push(a);
        proof {
            assert(action_inputs(all.take(k + 1)) =~= match action_input(all[k]) {
                Some(n) => action_inputs(all.take(k)).insert(n),
                None => action_inputs(all.take(k)),
            }) by {
                assert forall|n: Seq<char>| #[trigger] action_inputs(all.take(k + 1)).contains(n) <==> (
                action_inputs(all.take(k)).contains(n) || action_input(all[k]) == Some(n)) by {
                    if action_inputs(all.take(k + 1)).contains(n) {
                        let i = choose|i: int|
                            0 <= i < k + 1 && action_input(#[trigger] all.take(k + 1)[i]) == Some(n);
                        if i < k {
                            assert(all.take(k)[i] == all.take(k + 1)[i]);
                        }
                    }
                    if action_inputs(all.take(k)).contains(n) {
                        let i = choose|i: int| 0 <= i < k && action_input(#[trigger] all.take(k)[i]) == Some(n);
                        assert(all.take(k + 1)[i] == all.take(k)[i]);
                    }
                    if action_input(all[k]) == Some(n) {
                        assert(all.take(k + 1)[k] == all[k]);
                    }
                }
            }
            assert(interner@ =~= start.union(action_inputs(all.take(k + 1))));
        }
    }
    assert(all.take(all.len() as int) =~= all);
    *actions = done;
}

impl Interaction {
    /// Give the interaction's names, and its actions' input names, the
    /// interner's storage for those texts.
    pub fn intern_identifiers(&mut self, interner: &mut DotStringInterner)
        ensures
            same_interaction(*old(self), *final(self)),
            final(interner)@ == old(interner)@.union(interaction_names(*old(self))),
    {
        let ghost start = interner@;
        match self {
            Interaction::PointerUp { layer_name, actions } => {
                if let Some(name) = layer_name {
                    *name = interner.intern(name.as_str());
                }
                intern_actions(actions, interner);
            },
            Interaction::PointerDown { layer_name, actions } => {
                if let Some(name) = layer_name {
                    *name = interner.intern(name.as_str());
                }
                intern_actions(actions, interner);
            },
            Interaction::PointerEnter { layer_name, actions } => {
                if let Some(name) = layer_name {
                    *name = interner.intern(name.as_str());
                }
                intern_actions(actions, interner);
            },
            Interaction::PointerExit { layer_name, actions } => {
                if let Some(name) = layer_name {
                    *name = interner.intern(name.as_str());
                }
                intern_actions(actions, interner);
            },
            Interaction::Click { layer_name, actions } => {
                if let Some(name) = layer_name {
                    *name = interner.intern(name.as_str());
                }
                intern_actions(actions, interner);
            },
            Interaction::PointerMove { actions } => {
                intern_actions(actions, interner);
            },
            Interaction::OnComplete { state_name, actions } => {
                *state_name = interner.intern(state_name.as_str());
                intern_actions(actions, interner);
            },
            Interaction::OnLoopComplete { state_name, actions } => {
                *state_name = interner.intern(state_name.as_str());
                intern_actions(actions, interner);
            },
            Interaction::OnInputChange { input_name, actions } => {
                *input_name = interner.intern(input_name.as_str());
                intern_actions(actions, interner);
            },
            Interaction::OnMotionComplete { motion_name, actions } => {
                *motion_name = interner.intern(motion_name.as_str());
                intern_actions(actions, interner);
            },
        }
        assert(interner@ =~= start.union(interaction_names(*old(self))));
    }
}

} // verus!
