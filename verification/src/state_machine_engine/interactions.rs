//! Engine interactions: what the player reports that a state machine listens
//! for, and which events and layers the host must watch for them.
use vstd::prelude::*;

use crate::state_machine_engine::actions::Action;
use crate::string::{DotString, DotStringInterner};
use crate::text::texts;

verus! {

/// The snap or return glide of a drag: its duration in seconds and its
/// cubic-bézier easing, as IEEE-754 bit patterns of `f32` values.
#[derive(Debug, Clone, Copy, PartialEq, Eq)]
pub struct DragTween {
    pub duration: u32,
    pub easing: [u32; 4],
}

/// A place a dragged object can be dropped on.
#[derive(Debug, Clone)]
pub struct DropZone {
    pub layer_name: DotString,
    /// Where the object snaps to (bit patterns of `f32` coordinates); when
    /// omitted, the zone layer's own position.
    pub snap: Option<[u32; 2]>,
    /// Whether the object can no longer be grabbed once docked here.
    pub lock: Option<bool>,
    /// Whether docking binds the object to the zone layer's position.
    pub track: Option<bool>,
    /// Actions run when the object docks here.
    pub actions: Option<Vec<Action>>,
}

/// What a state machine reacts to.
#[derive(Debug)]
pub enum Interaction {
    PointerUp { layer_name: Option<DotString>, actions: Vec<Action> },
    PointerDown { layer_name: Option<DotString>, actions: Vec<Action> },
    PointerEnter { layer_name: Option<DotString>, actions: Vec<Action> },
    /// Scoped to a state when `state_name` is given.
    PointerMove { state_name: Option<DotString>, actions: Vec<Action> },
    PointerExit { layer_name: Option<DotString>, actions: Vec<Action> },
    Click { layer_name: Option<DotString>, actions: Vec<Action> },
    OnComplete { state_name: DotString, actions: Vec<Action> },
    OnLoopComplete { state_name: DotString, actions: Vec<Action> },
    /// A drag gesture; its actions live in its hooks and drop zones.
    DragAndDrop {
        layer_name: DotString,
        slot_id: Option<DotString>,
        path_layer_name: Option<DotString>,
        progress_input: Option<DotString>,
        dock_fallback: Option<DotString>,
        state_name: Option<DotString>,
        boundary_layer_name: Option<DotString>,
        /// Whether a frozen copy of the layer is dragged in place of the object.
        ghost_drag: Option<bool>,
        tween: Option<DragTween>,
        on_grab: Option<Vec<Action>>,
        on_drag: Option<Vec<Action>>,
        on_drop: Option<Vec<Action>>,
        drop_zones: Vec<DropZone>,
    },
}

/// The layer an interaction watches, if any.
pub open spec fn interaction_layer(i: Interaction) -> Option<Seq<char>> {
    match i {
        Interaction::PointerUp { layer_name, .. } => match layer_name {
            Some(n) => Some(n@),
            None => None,
        },
        Interaction::PointerDown { layer_name, .. } => match layer_name {
            Some(n) => Some(n@),
            None => None,
        },
        Interaction::PointerEnter { layer_name, .. } => match layer_name {
            Some(n) => Some(n@),
            None => None,
        },
        Interaction::PointerExit { layer_name, .. } => match layer_name {
            Some(n) => Some(n@),
            None => None,
        },
        Interaction::Click { layer_name, .. } => match layer_name {
            Some(n) => Some(n@),
            None => None,
        },
        Interaction::DragAndDrop { layer_name, .. } => Some(layer_name@),
        _ => None,
    }
}

/// The state a completion interaction or a drag is bound to, if any. A
/// pointer move names none here, even when it is scoped to a state.
pub open spec fn interaction_state(i: Interaction) -> Option<Seq<char>> {
    match i {
        Interaction::OnComplete { state_name, .. } => Some(state_name@),
        Interaction::OnLoopComplete { state_name, .. } => Some(state_name@),
        Interaction::DragAndDrop { state_name, .. } => match state_name {
            Some(n) => Some(n@),
            None => None,
        },
        _ => None,
    }
}

/// The actions the generic event path runs for an interaction: none for a
/// drag, whose actions its gesture runs.
pub open spec fn interaction_actions(i: Interaction) -> Seq<Action> {
    match i {
        Interaction::PointerUp { actions, .. } => actions@,
        Interaction::PointerDown { actions, .. } => actions@,
        Interaction::PointerEnter { actions, .. } => actions@,
        Interaction::PointerMove { actions, .. } => actions@,
        Interaction::PointerExit { actions, .. } => actions@,
        Interaction::Click { actions, .. } => actions@,
        Interaction::OnComplete { actions, .. } => actions@,
        Interaction::OnLoopComplete { actions, .. } => actions@,
        Interaction::DragAndDrop { .. } => Seq::empty(),
    }
}

/// An interaction's kind, as the definition format names it.
pub open spec fn interaction_type(i: Interaction) -> Seq<char> {
    match i {
        Interaction::PointerUp { .. } => "PointerUp"@,
        Interaction::PointerDown { .. } => "PointerDown"@,
        Interaction::PointerEnter { .. } => "PointerEnter"@,
        Interaction::PointerMove { .. } => "PointerMove"@,
        Interaction::PointerExit { .. } => "PointerExit"@,
        Interaction::Click { .. } => "Click"@,
        Interaction::OnComplete { .. } => "OnComplete"@,
        Interaction::OnLoopComplete { .. } => "OnLoopComplete"@,
        Interaction::DragAndDrop { .. } => "DragAndDrop"@,
    }
}

/// The text of an optional name.
pub open spec fn opt_text(n: Option<DotString>) -> Option<Seq<char>> {
    match n {
        Some(d) => Some(d@),
        None => None,
    }
}

/// The texts an optional name adds to an interner.
pub open spec fn opt_names(n: Option<DotString>) -> Set<Seq<char>> {
    match n {
        Some(d) => set![d@],
        None => Set::empty(),
    }
}

/// Whether two drop zones are the same but for where their names are stored.
pub open spec fn same_zone(a: DropZone, b: DropZone) -> bool {
    &&& a.layer_name@ == b.layer_name@
    &&& a.snap == b.snap
    &&& a.lock == b.lock
    &&& a.track == b.track
    &&& a.actions == b.actions
}

/// The layer names of the drop zones.
pub open spec fn zone_names(zones: Seq<DropZone>) -> Set<Seq<char>> {
    Set::new(|n: Seq<char>| exists|i: int| 0 <= i < zones.len() && #[trigger] zones[i].layer_name@ == n)
}

/// Whether two interactions are the same but for where their names are
/// stored.
pub open spec fn same_interaction(a: Interaction, b: Interaction) -> bool {
    match (a, b) {
        (Interaction::PointerUp { layer_name: l1, actions: a1 }, Interaction::PointerUp { layer_name: l2, actions: a2 }) =>
            opt_text(l1) == opt_text(l2) && a1 == a2,
        (Interaction::PointerDown { layer_name: l1, actions: a1 }, Interaction::PointerDown { layer_name: l2, actions: a2 }) =>
            opt_text(l1) == opt_text(l2) && a1 == a2,
        (Interaction::PointerEnter { layer_name: l1, actions: a1 }, Interaction::PointerEnter { layer_name: l2, actions: a2 }) =>
            opt_text(l1) == opt_text(l2) && a1 == a2,
        (Interaction::PointerExit { layer_name: l1, actions: a1 }, Interaction::PointerExit { layer_name: l2, actions: a2 }) =>
            opt_text(l1) == opt_text(l2) && a1 == a2,
        (Interaction::Click { layer_name: l1, actions: a1 }, Interaction::Click { layer_name: l2, actions: a2 }) =>
            opt_text(l1) == opt_text(l2) && a1 == a2,
        (Interaction::PointerMove { state_name: s1, actions: a1 }, Interaction::PointerMove { state_name: s2, actions: a2 }) =>
            opt_text(s1) == opt_text(s2) && a1 == a2,
        (Interaction::OnComplete { state_name: s1, actions: a1 }, Interaction::OnComplete { state_name: s2, actions: a2 }) =>
            s1@ == s2@ && a1 == a2,
        (Interaction::OnLoopComplete { state_name: s1, actions: a1 }, Interaction::OnLoopComplete { state_name: s2, actions: a2 }) =>
            s1@ == s2@ && a1 == a2,
        (
            Interaction::DragAndDrop {
                layer_name: l1, slot_id: i1, path_layer_name: p1, progress_input: g1, dock_fallback: d1,
                state_name: s1, boundary_layer_name: b1, ghost_drag: h1, tween: t1, on_grab: og1,
                on_drag: od1, on_drop: op1, drop_zones: z1,
            },
            Interaction::DragAndDrop {
                layer_name: l2, slot_id: i2, path_layer_name: p2, progress_input: g2, dock_fallback: d2,
                state_name: s2, boundary_layer_name: b2, ghost_drag: h2, tween: t2, on_grab: og2,
                on_drag: od2, on_drop: op2, drop_zones: z2,
            },
        ) => {
            &&& l1@ == l2@
            &&& opt_text(i1) == opt_text(i2)
            &&& opt_text(p1) == opt_text(p2)
            &&& opt_text(g1) == opt_text(g2)
            &&& opt_text(d1) == opt_text(d2)
            &&& opt_text(s1) == opt_text(s2)
            &&& opt_text(b1) == opt_text(b2)
            &&& h1 == h2 && t1 == t2 && og1 == og2 && od1 == od2 && op1 == op2
            &&& z1@.len() == z2@.len()
            &&& forall|k: int| 0 <= k < z1@.len() ==> same_zone(#[trigger] z1@[k], z2@[k])
        },
        _ => false,
    }
}

/// The names of an interaction: the texts interning it stores.
pub open spec fn interaction_names(i: Interaction) -> Set<Seq<char>> {
    match i {
        Interaction::PointerUp { layer_name, .. } => opt_names(layer_name),
        Interaction::PointerDown { layer_name, .. } => opt_names(layer_name),
        Interaction::PointerEnter { layer_name, .. } => opt_names(layer_name),
        Interaction::PointerExit { layer_name, .. } => opt_names(layer_name),
        Interaction::Click { layer_name, .. } => opt_names(layer_name),
        Interaction::PointerMove { state_name, .. } => opt_names(state_name),
        Interaction::OnComplete { state_name, .. } => set![state_name@],
        Interaction::OnLoopComplete { state_name, .. } => set![state_name@],
        Interaction::DragAndDrop {
            layer_name,
            slot_id,
            path_layer_name,
            progress_input,
            dock_fallback,
            state_name,
            boundary_layer_name,
            drop_zones,
            ..
        } => set![layer_name@].union(opt_names(slot_id)).union(opt_names(path_layer_name)).union(
            opt_names(progress_input),
        ).union(opt_names(dock_fallback)).union(opt_names(state_name)).union(
            opt_names(boundary_layer_name),
        ).union(zone_names(drop_zones@)),
    }
}

/// Give an optional name the interner's storage for its text.
fn intern_opt(name: &mut Option<DotString>, interner: &mut DotStringInterner)
    ensures
        opt_text(*final(name)) == opt_text(*old(name)),
        final(interner)@ == old(interner)@.union(opt_names(*old(name))),
{
    let ghost start = interner@;
    match name {
        Some(n) => {
            *n = interner.intern(n.as_str());
        },
        None => {},
    }
    assert(interner@ =~= start.union(opt_names(*old(name))));
}

/// Give the drop zones' layer names the interner's storage for their texts.
fn intern_zones(zones: &mut Vec<DropZone>, interner: &mut DotStringInterner)
    ensures
        final(zones)@.len() == old(zones)@.len(),
        forall|k: int| 0 <= k < old(zones)@.len() ==> same_zone(#[trigger] old(zones)@[k], final(zones)@[k]),
        final(interner)@ == old(interner)@.union(zone_names(old(zones)@)),
{
    let ghost all = zones@;
    let ghost start = interner@;
    let mut taken: Vec<DropZone> = Vec::new();
    std::mem::swap(&mut taken, zones);
    let mut done: Vec<DropZone> = Vec::new();
    assert(start.union(zone_names(all.take(0))) =~= start);
    for z in it: taken.into_iter()
        invariant
            it.seq() == all,
            done@.len() == it.index(),
            forall|i: int| 0 <= i < it.index() ==> same_zone(#[trigger] all[i], done@[i]),
            interner@ == start.union(zone_names(all.take(it.index()))),
    {
        let ghost k = it.index();
        let DropZone { layer_name, snap, lock, track, actions } = z;
        let layer_name = interner.intern(layer_name.as_str());
        done.push(DropZone { layer_name, snap, lock, track, actions });
        proof {
            assert(zone_names(all.take(k + 1)) =~= zone_names(all.take(k)).insert(all[k].layer_name@)) by {
                assert forall|n: Seq<char>| #[trigger] zone_names(all.take(k + 1)).contains(n) <==> (
                zone_names(all.take(k)).contains(n) || all[k].layer_name@ == n) by {
                    if zone_names(all.take(k + 1)).contains(n) {
                        let i = choose|i: int| 0 <= i < k + 1 && #[trigger] all.take(k + 1)[i].layer_name@ == n;
                        if i < k {
                            assert(all.take(k)[i] == all.take(k + 1)[i]);
                        }
                    }
                    if zone_names(all.take(k)).contains(n) {
                        let i = choose|i: int| 0 <= i < k && #[trigger] all.take(k)[i].layer_name@ == n;
                        assert(all.take(k + 1)[i] == all.take(k)[i]);
                    }
                    if all[k].layer_name@ == n {
                        assert(all.take(k + 1)[k] == all[k]);
                    }
                }
            }
            assert(interner@ =~= start.union(zone_names(all.take(k + 1))));
        }
    }
    assert(all.take(all.len() as int) =~= all);
    *zones = done;
}

impl Interaction {
    /// Give the interaction's names the interner's storage for their texts,
    /// so that comparing them later is cheap. Engine actions name their
    /// inputs with plain strings, so they are left as they are.
    pub fn intern_identifiers(&mut self, interner: &mut DotStringInterner)
        ensures
            same_interaction(*old(self), *final(self)),
            final(interner)@ == old(interner)@.union(interaction_names(*old(self))),
    {
        let ghost start = interner@;
        match self {
            Interaction::PointerUp { layer_name, .. } => intern_opt(layer_name, interner),
            Interaction::PointerDown { layer_name, .. } => intern_opt(layer_name, interner),
            Interaction::PointerEnter { layer_name, .. } => intern_opt(layer_name, interner),
            Interaction::PointerExit { layer_name, .. } => intern_opt(layer_name, interner),
            Interaction::Click { layer_name, .. } => intern_opt(layer_name, interner),
            Interaction::PointerMove { state_name, .. } => intern_opt(state_name, interner),
            Interaction::OnComplete { state_name, .. } => {
                *state_name = interner.intern(state_name.as_str());
            },
            Interaction::OnLoopComplete { state_name, .. } => {
                *state_name = interner.intern(state_name.as_str());
            },
            Interaction::DragAndDrop {
                layer_name,
                slot_id,
                path_layer_name,
                progress_input,
                dock_fallback,
                state_name,
                boundary_layer_name,
                drop_zones,
                ..
            } => {
                *layer_name = interner.intern(layer_name.as_str());
                intern_opt(slot_id, interner);
                intern_opt(path_layer_name, interner);
                intern_opt(progress_input, interner);
                intern_opt(dock_fallback, interner);
                intern_opt(state_name, interner);
                intern_opt(boundary_layer_name, interner);
                intern_zones(drop_zones, interner);
            },
        }
        assert(interner@ =~= start.union(interaction_names(*old(self))));
    }
}

/// What an interaction answers.
pub trait InteractionTrait {
    fn get_layer_name(&self) -> Option<&DotString>;

    fn get_state_name(&self) -> Option<String>;

    fn get_actions(&self) -> &[Action];

    /// The interaction's kind, as the definition format names it.
    fn interaction_type_name(&self) -> &'static str;
}

impl InteractionTrait for Interaction {
    /// The layer the interaction watches, if any.
    fn get_layer_name(&self) -> (r: Option<&DotString>)
        ensures
            match r {
                Some(n) => interaction_layer(*self) == Some(n@),
                None => interaction_layer(*self) is None,
            },
    {
        match self {
            Interaction::PointerUp { layer_name, .. } => layer_name.as_ref(),
            Interaction::PointerDown { layer_name, .. } => layer_name.as_ref(),
            Interaction::PointerEnter { layer_name, .. } => layer_name.as_ref(),
            Interaction::PointerExit { layer_name, .. } => layer_name.as_ref(),
            Interaction::Click { layer_name, .. } => layer_name.as_ref(),
            Interaction::DragAndDrop { layer_name, .. } => Some(layer_name),
            _ => None,
        }
    }

    /// The state the interaction is bound to, if any.
    fn get_state_name(&self) -> (r: Option<String>)
        ensures
            match r {
                Some(n) => interaction_state(*self) == Some(n@),
                None => interaction_state(*self) is None,
            },
    {
        match self {
            Interaction::OnComplete { state_name, .. } => Some(state_name.as_str().to_owned()),
            Interaction::OnLoopComplete { state_name, .. } => Some(state_name.as_str().to_owned()),
            Interaction::DragAndDrop { state_name, .. } => match state_name {
                Some(n) => Some(n.as_str().to_owned()),
                None => None,
            },
            _ => None,
        }
    }

    /// The actions the generic event path runs.
    fn get_actions(&self) -> (a: &[Action])
        ensures
            a@ == interaction_actions(*self),
    {
        match self {
            Interaction::PointerUp { actions, .. } => actions.as_slice(),
            Interaction::PointerDown { actions, .. } => actions.as_slice(),
            Interaction::PointerEnter { actions, .. } => actions.as_slice(),
            Interaction::PointerMove { actions, .. } => actions.as_slice(),
            Interaction::PointerExit { actions, .. } => actions.as_slice(),
            Interaction::Click { actions, .. } => actions.as_slice(),
            Interaction::OnComplete { actions, .. } => actions.as_slice(),
            Interaction::OnLoopComplete { actions, .. } => actions.as_slice(),
            Interaction::DragAndDrop { .. } => {
                let none: &[Action] = &[];
                assert(none@ =~= Seq::<Action>::empty());
                none
            },
        }
    }

    fn interaction_type_name(&self) -> (n: &'static str)
        ensures
            n@ == interaction_type(*self),
    {
        match self {
            Interaction::PointerUp { .. } => "PointerUp",
            Interaction::PointerDown { .. } => "PointerDown",
            Interaction::PointerEnter { .. } => "PointerEnter",
            Interaction::PointerMove { .. } => "PointerMove",
            Interaction::PointerExit { .. } => "PointerExit",
            Interaction::Click { .. } => "Click",
            Interaction::OnComplete { .. } => "OnComplete",
            Interaction::OnLoopComplete { .. } => "OnLoopComplete",
            Interaction::DragAndDrop { .. } => "DragAndDrop",
        }
    }
}

/// Whether the host must report events of type `name` for `i`: the
/// interaction's own kind, and, for entering or leaving a layer, pointer
/// moves too (the engine finds those itself); a drag needs presses, moves
/// and releases.
pub open spec fn listens_for(i: Interaction, name: Seq<char>) -> bool {
    match i {
        Interaction::PointerEnter { .. } => name == "PointerEnter"@ || name == "PointerMove"@,
        Interaction::PointerExit { .. } => name == "PointerExit"@ || name == "PointerMove"@,
        Interaction::DragAndDrop { .. } => name == "PointerDown"@ || name == "PointerMove"@ || name
            == "PointerUp"@,
        _ => name == interaction_type(i),
    }
}

/// Whether some interaction needs events of type `name`.
#[verifier::opaque]
pub open spec fn needed(interactions: Seq<Interaction>, name: Seq<char>) -> bool {
    exists|k: int| 0 <= k < interactions.len() && listens_for(#[trigger] interactions[k], name)
}

/// Every event type a host can be asked to report, in byte order.
pub open spec fn event_types() -> Seq<Seq<char>> {
    seq![
        "Click"@,
        "OnComplete"@,
        "OnLoopComplete"@,
        "PointerDown"@,
        "PointerEnter"@,
        "PointerExit"@,
        "PointerMove"@,
        "PointerUp"@,
    ]
}

/// The ones of `names` that `interactions` need, in the order of `names`.
#[verifier::opaque]
pub open spec fn needed_of(names: Seq<Seq<char>>, interactions: Seq<Interaction>) -> Seq<Seq<char>>
    decreases names.len(),
{
    if names.len() == 0 {
        Seq::empty()
    } else {
        needed_of(names.drop_last(), interactions) + if_needed(
            needed(interactions, names.last()),
            names.last(),
        )
    }
}

/// `name` alone when `b` holds, else nothing.
pub open spec fn if_needed(b: bool, name: Seq<char>) -> Seq<Seq<char>> {
    if b {
        seq![name]
    } else {
        Seq::empty()
    }
}

/// One step of `needed_of`: the first `k + 1` names.
proof fn lemma_needed_step(t: Seq<Seq<char>>, k: int, all: Seq<Interaction>)
    requires
        0 <= k < t.len(),
    ensures
        needed_of(t.take(k + 1), all) == needed_of(t.take(k), all) + if_needed(needed(all, t[k]), t[k]),
{
    reveal(needed_of);
    assert(t.take(k + 1).drop_last() =~= t.take(k));
    assert(t.take(k + 1).last() == t[k]);
}

/// The names of the kinds of interaction differ from one another.
proof fn lemma_event_names_differ()
    ensures
        "Click"@.len() == 5,
        "OnComplete"@.len() == 10,
        "OnLoopComplete"@.len() == 14,
        "PointerUp"@.len() == 9,
        "PointerEnter"@.len() == 12,
        "PointerDown"@.len() == 11 && "PointerDown"@[7] == 'D',
        "PointerExit"@.len() == 11 && "PointerExit"@[7] == 'E',
        "PointerMove"@.len() == 11 && "PointerMove"@[7] == 'M',
        "DragAndDrop"@.len() == 11 && "DragAndDrop"@[7] == 'D' && "DragAndDrop"@[0] == 'D',
        "PointerDown"@[0] == 'P',
{
    reveal_strlit("Click");
    reveal_strlit("OnComplete");
    reveal_strlit("OnLoopComplete");
    reveal_strlit("PointerDown");
    reveal_strlit("PointerEnter");
    reveal_strlit("PointerExit");
    reveal_strlit("PointerMove");
    reveal_strlit("PointerUp");
    reveal_strlit("DragAndDrop");
}

/// Append `name` to `r` when `b` holds.
fn push_if(r: &mut Vec<String>, b: bool, name: &str)
    ensures
        texts(final(r)@) == texts(old(r)@) + if_needed(b, name@),
{
    let ghost before = texts(r@);
    if b {
        r.push(name.to_owned());
        assert(texts(r@) =~= before + seq![name@]);
    } else {
        assert(texts(r@) =~= before + Seq::<Seq<char>>::empty());
    }
}

/// The event types the host must report for `interactions`: sorted, each
/// once (see `listens_for`).
pub fn framework_setup(interactions: &Vec<Interaction>) -> (r: Vec<String>)
    ensures
        texts(r@) == needed_of(event_types(), interactions@),
{
    let ghost all = interactions@;
    let mut click = false;
    let mut complete = false;
    let mut loop_complete = false;
    let mut down = false;
    let mut enter = false;
    let mut exit = false;
    let mut moves = false;
    let mut up = false;
    for i in 0..interactions.len()
        invariant
            all == interactions@,
            click == exists|k: int| 0 <= k < i && listens_for(#[trigger] all[k], "Click"@),
            complete == exists|k: int| 0 <= k < i && listens_for(#[trigger] all[k], "OnComplete"@),
            loop_complete == exists|k: int| 0 <= k < i && listens_for(#[trigger] all[k], "OnLoopComplete"@),
            down == exists|k: int| 0 <= k < i && listens_for(#[trigger] all[k], "PointerDown"@),
            enter == exists|k: int| 0 <= k < i && listens_for(#[trigger] all[k], "PointerEnter"@),
            exit == exists|k: int| 0 <= k < i && listens_for(#[trigger] all[k], "PointerExit"@),
            moves == exists|k: int| 0 <= k < i && listens_for(#[trigger] all[k], "PointerMove"@),
            up == exists|k: int| 0 <= k < i && listens_for(#[trigger] all[k], "PointerUp"@),
    {
        proof {
            lemma_event_names_differ();
        }
        match &interactions[i] {
            Interaction::PointerUp { .. } => {
                up = true;
            },
            Interaction::PointerDown { .. } => {
                down = true;
            },
            Interaction::PointerEnter { .. } => {
                enter = true;
                moves = true;
            },
            Interaction::PointerMove { .. } => {
                moves = true;
            },
            Interaction::PointerExit { .. } => {
                exit = true;
                moves = true;
            },
            Interaction::Click { .. } => {
                click = true;
            },
            Interaction::OnComplete { .. } => {
                complete = true;
            },
            Interaction::OnLoopComplete { .. } => {
                loop_complete = true;
            },
            Interaction::DragAndDrop { .. } => {
                down = true;
                moves = true;
                up = true;
            },
        }
    }
    let mut r: Vec<String> = Vec::new();
    assert(texts(r@) =~= Seq::<Seq<char>>::empty());
    push_if(&mut r, click, "Click");
    push_if(&mut r, complete, "OnComplete");
    push_if(&mut r, loop_complete, "OnLoopComplete");
    push_if(&mut r, down, "PointerDown");
    push_if(&mut r, enter, "PointerEnter");
    push_if(&mut r, exit, "PointerExit");
    push_if(&mut r, moves, "PointerMove");
    push_if(&mut r, up, "PointerUp");
    proof {
        assert(click == needed(all, "Click"@)) by {
            reveal(needed);
        }
        assert(complete == needed(all, "OnComplete"@)) by {
            reveal(needed);
        }
        assert(loop_complete == needed(all, "OnLoopComplete"@)) by {
            reveal(needed);
        }
        assert(down == needed(all, "PointerDown"@)) by {
            reveal(needed);
        }
        assert(enter == needed(all, "PointerEnter"@)) by {
            reveal(needed);
        }
        assert(exit == needed(all, "PointerExit"@)) by {
            reveal(needed);
        }
        assert(moves == needed(all, "PointerMove"@)) by {
            reveal(needed);
        }
        assert(up == needed(all, "PointerUp"@)) by {
            reveal(needed);
        }
        let t = event_types();
        assert(needed_of(t.take(0), all) == Seq::<Seq<char>>::empty()) by {
            reveal(needed_of);
        }
        lemma_needed_step(t, 0, all);
        lemma_needed_step(t, 1, all);
        lemma_needed_step(t, 2, all);
        lemma_needed_step(t, 3, all);
        lemma_needed_step(t, 4, all);
        lemma_needed_step(t, 5, all);
        lemma_needed_step(t, 6, all);
        lemma_needed_step(t, 7, all);
        assert(t.take(8) =~= t);
    }
    r
}

/// The layer a pointer interaction watches and the event type it listens
/// for, when it is a press, release, enter or leave bound to a layer.
pub open spec fn listened_layer(i: Interaction) -> Option<(Seq<char>, Seq<char>)> {
    match i {
        Interaction::PointerEnter { layer_name: Some(l), .. } => Some((l@, "PointerEnter"@)),
        Interaction::PointerExit { layer_name: Some(l), .. } => Some((l@, "PointerExit"@)),
        Interaction::PointerUp { layer_name: Some(l), .. } => Some((l@, "PointerUp"@)),
        Interaction::PointerDown { layer_name: Some(l), .. } => Some((l@, "PointerDown"@)),
        _ => None,
    }
}

/// The watched layers of `s` (see `listened_layer`), in order.
pub open spec fn listened_layers_of(s: Seq<Interaction>) -> Seq<(Seq<char>, Seq<char>)>
    decreases s.len(),
{
    if s.len() == 0 {
        Seq::empty()
    } else {
        let rest = listened_layers_of(s.drop_last());
        match listened_layer(s.last()) {
            Some(e) => rest.push(e),
            None => rest,
        }
    }
}

/// The layers the engine watches for pointer hits, each with the event type
/// it listens for, in the order of `interactions`.
pub fn listened_layers(interactions: &Vec<Interaction>) -> (r: Vec<(DotString, &'static str)>)
    ensures
        r@.map_values(|p: (DotString, &'static str)| (p.0@, p.1@)) == listened_layers_of(interactions@),
{
    let mut r: Vec<(DotString, &'static str)> = Vec::new();
    for i in 0..interactions.len()
        invariant
            r@.map_values(|p: (DotString, &'static str)| (p.0@, p.1@)) == listened_layers_of(
                interactions@.take(i as int),
            ),
    {
        proof {
            assert(interactions@.take(i + 1).drop_last() =~= interactions@.take(i as int));
            assert(interactions@.take(i + 1).last() == interactions@[i as int]);
        }
        let entry: Option<(DotString, &'static str)> = match &interactions[i] {
            Interaction::PointerEnter { layer_name: Some(l), .. } => Some((l.clone(), "PointerEnter")),
            Interaction::PointerExit { layer_name: Some(l), .. } => Some((l.clone(), "PointerExit")),
            Interaction::PointerUp { layer_name: Some(l), .. } => Some((l.clone(), "PointerUp")),
            Interaction::PointerDown { layer_name: Some(l), .. } => Some((l.clone(), "PointerDown")),
            _ => None,
        };
        match entry {
            Some(e) => {
                let ghost before = r@;
                r.push(e);
                proof {
                    assert(r@.map_values(|p: (DotString, &'static str)| (p.0@, p.1@)) =~= before.map_values(
                        |p: (DotString, &'static str)| (p.0@, p.1@),
                    ).push((e.0@, e.1@)));
                }
            },
            None => {},
        }
    }
    proof {
        assert(interactions@.take(interactions@.len() as int) =~= interactions@);
    }
    r
}

} // verus!
