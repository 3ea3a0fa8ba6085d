//! Listeners: actions run when something happens on a layer or in a state.
use vstd::prelude::*;

use crate::state_machine_engine::actions::Action;

verus! {

/// What a listener does to its input.
#[derive(Debug, Clone, Copy, PartialEq, Eq, Structural)]
pub enum ListenerAction {
    Increment,
    Decrement,
    /// Sets the input (named `Set` in the definition format).
    Assign,
    /// Does nothing (named `None` in the definition format).
    NoAction,
}

/// Actions to run on a pointer event over a layer (any layer when none is
/// named), or when a state completes.
#[derive(Debug)]
pub enum Listener {
    PointerUp { layer_name: Option<String>, actions: Vec<Action> },
    PointerDown { layer_name: Option<String>, actions: Vec<Action> },
    PointerEnter { layer_name: Option<String>, actions: Vec<Action> },
    PointerMove { layer_name: Option<String>, actions: Vec<Action> },
    PointerExit { layer_name: Option<String>, actions: Vec<Action> },
    OnComplete { state_name: String, actions: Vec<Action> },
}

/// The layer a listener watches, if any.
pub open spec fn listener_layer(l: Listener) -> Option<Seq<char>> {
    match l {
        Listener::PointerUp { layer_name, .. } => match layer_name {
            Some(n) => Some(n@),
            None => None,
        },
        Listener::PointerDown { layer_name, .. } => match layer_name {
            Some(n) => Some(n@),
            None => None,
        },
        Listener::PointerEnter { layer_name, .. } => match layer_name {
            Some(n) => Some(n@),
            None => None,
        },
        Listener::PointerMove { layer_name, .. } => match layer_name {
            Some(n) => Some(n@),
            None => None,
        },
        Listener::PointerExit { layer_name, .. } => match layer_name {
            Some(n) => Some(n@),
            None => None,
        },
        Listener::OnComplete { .. } => None,
    }
}

/// The actions of a listener.
pub open spec fn listener_actions(l: Listener) -> Seq<Action> {
    match l {
        Listener::PointerUp { actions, .. } => actions@,
        Listener::PointerDown { actions, .. } => actions@,
        Listener::PointerEnter { actions, .. } => actions@,
        Listener::PointerMove { actions, .. } => actions@,
        Listener::PointerExit { actions, .. } => actions@,
        Listener::OnComplete { actions, .. } => actions@,
    }
}

/// `name`, copied.
fn copy_name(name: &Option<String>) -> (r: Option<String>)
    ensures
        match *name {
            Some(n) => r matches Some(c) && c@ == n@,
            None => r is None,
        },
{
    match name {
        Some(n) => Some(n.clone()),
        None => None,
    }
}

/// What a listener answers.
pub trait ListenerTrait {
    fn get_layer_name(&self) -> Option<String>;

    fn get_state_name(&self) -> Option<String>;

    fn get_actions(&self) -> &Vec<Action>;

    /// The listener's kind, as the definition format names it.
    fn listener_type_name(&self) -> String;
}

impl ListenerTrait for Listener {
    /// The layer a pointer listener watches; none for a completion listener.
    fn get_layer_name(&self) -> (r: Option<String>)
        ensures
            match listener_layer(*self) {
                Some(n) => r matches Some(c) && c@ == n,
                None => r is None,
            },
    {
        match self {
            Listener::PointerUp { layer_name, .. } => copy_name(layer_name),
            Listener::PointerDown { layer_name, .. } => copy_name(layer_name),
            Listener::PointerEnter { layer_name, .. } => copy_name(layer_name),
            Listener::PointerMove { layer_name, .. } => copy_name(layer_name),
            Listener::PointerExit { layer_name, .. } => copy_name(layer_name),
            Listener::OnComplete { .. } => None,
        }
    }

    /// The state a completion listener watches; none for a pointer listener.
    fn get_state_name(&self) -> (r: Option<String>)
        ensures
            match *self {
                Listener::OnComplete { state_name, .. } => r matches Some(c) && c@ == state_name@,
                _ => r is None,
            },
    {
        match self {
            Listener::OnComplete { state_name, .. } => Some(state_name.clone()),
            _ => None,
        }
    }

    /// The actions to run.
    fn get_actions(&self) -> (a: &Vec<Action>)
        ensures
            a@ == listener_actions(*self),
    {
        match self {
            Listener::PointerUp { actions, .. } => actions,
            Listener::PointerDown { actions, .. } => actions,
            Listener::PointerEnter { actions, .. } => actions,
            Listener::PointerMove { actions, .. } => actions,
            Listener::PointerExit { actions, .. } => actions,
            Listener::OnComplete { actions, .. } => actions,
        }
    }

    fn listener_type_name(&self) -> (n: String)
        ensures
            n@ == match *self {
                Listener::PointerUp { .. } => "PointerUp"@,
                Listener::PointerDown { .. } => "PointerDown"@,
                Listener::PointerEnter { .. } => "PointerEnter"@,
                Listener::PointerMove { .. } => "PointerMove"@,
                Listener::PointerExit { .. } => "PointerExit"@,
                Listener::OnComplete { .. } => "OnComplete"@,
            },
    {
        match self {
            Listener::PointerUp { .. } => "PointerUp".to_owned(),
            Listener::PointerDown { .. } => "PointerDown".to_owned(),
            Listener::PointerEnter { .. } => "PointerEnter".to_owned(),
            Listener::PointerMove { .. } => "PointerMove".to_owned(),
            Listener::PointerExit { .. } => "PointerExit".to_owned(),
            Listener::OnComplete { .. } => "OnComplete".to_owned(),
        }
    }
}

} // verus!
