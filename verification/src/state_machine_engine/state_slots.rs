//! State-declared slots: the values a playback state declares for animation
//! slots, how they resolve against the numeric inputs, and which declared
//! slot types fit a slot's current value.
use vstd::prelude::*;

use crate::state_machine::inputs::InputsView;
use crate::state_machine::{starts_with_char, str_starts_with_char};
use crate::state_machine_engine::inputs::InputManager;
use crate::state_machine_engine::state_machine::StringNumber;
use crate::string::DotString;
use crate::text::{chars_of, slice_chars, string_of, texts};

verus! {

/// The type a state declares for one of its slots.
#[derive(Debug, Clone, Copy, PartialEq, Eq, Structural)]
pub enum StateSlotType {
    Color,
    Scalar,
    Vector,
    Position,
}

/// The kind of value a slot currently holds.
#[derive(Debug, Clone, Copy, PartialEq, Eq, Structural)]
pub enum SlotKind {
    Color,
    Scalar,
    Vector,
    Position,
    Gradient,
    Image,
    Text,
}

/// Whether a declared slot type is compatible with the slot's current value.
/// Vector and Position are interchangeable — they are type-identical and
/// authored-slot extraction defaults 2-element values to Vector.
pub open spec fn compatible(declared: StateSlotType, current: SlotKind) -> bool {
    match (declared, current) {
        (StateSlotType::Color, SlotKind::Color) => true,
        (StateSlotType::Scalar, SlotKind::Scalar) => true,
        (StateSlotType::Vector, SlotKind::Vector) => true,
        (StateSlotType::Vector, SlotKind::Position) => true,
        (StateSlotType::Position, SlotKind::Vector) => true,
        (StateSlotType::Position, SlotKind::Position) => true,
        _ => false,
    }
}

/// A colour declaration fits only a colour slot, a scalar only a scalar;
/// vectors and positions fit each other either way round.
pub proof fn law_compatible(declared: StateSlotType, current: SlotKind)
    ensures
        compatible(declared, current) <==> ((declared == StateSlotType::Color && current == SlotKind::Color) || (
        declared == StateSlotType::Scalar && current == SlotKind::Scalar) || ((declared == StateSlotType::Vector
            || declared == StateSlotType::Position) && (current == SlotKind::Vector || current
            == SlotKind::Position))),
{
}

/// Whether a declared slot type is compatible with the slot's current value.
pub fn type_compatible(declared: StateSlotType, current: &SlotKind) -> (b: bool)
    ensures
        b == compatible(declared, *current),
{
    matches!(
        (declared, current),
        (StateSlotType::Color, SlotKind::Color) | (StateSlotType::Scalar, SlotKind::Scalar) | (
            StateSlotType::Vector | StateSlotType::Position,
            SlotKind::Vector | SlotKind::Position,
        )
    )
}

/// A declared slot value: one element or several. Each element is a number
/// (an IEEE-754 bit pattern of an `f32`) or a `$`-reference to a numeric input.
#[derive(Debug, Clone)]
pub enum StateSlotValue {
    Single(StringNumber),
    Multi(Vec<StringNumber>),
}

/// A slot value that a playback state declares.
#[derive(Debug, Clone)]
pub struct StateSlot {
    pub slot_id: DotString,
    pub slot_type: StateSlotType,
    pub value: StateSlotValue,
}

/// The elements of a declared value.
pub open spec fn slot_elements(v: StateSlotValue) -> Seq<StringNumber> {
    match v {
        StateSlotValue::Single(e) => seq![e],
        StateSlotValue::Multi(es) => es@,
    }
}

/// Whether `n` elements suit a slot type: one for a scalar, two for a vector
/// or a position, three or four for a colour.
pub open spec fn arity_fits(t: StateSlotType, n: int) -> bool {
    match t {
        StateSlotType::Scalar => n == 1,
        StateSlotType::Vector | StateSlotType::Position => n == 2,
        StateSlotType::Color => 3 <= n <= 4,
    }
}

/// The input a `$`-reference names: the text after its one leading `$`.
pub open spec fn slot_reference(e: StringNumber) -> Option<Seq<char>> {
    match e {
        StringNumber::String(s) => if starts_with_char(s@, '$') {
            Some(s@.skip(1))
        } else {
            None
        },
        StringNumber::F32(_) => None,
    }
}

/// The number an element stands for: itself, or the current value of the
/// declared numeric input it references. A built-in (`@`) input, a text that
/// is no `$`-reference, or an undeclared input give nothing.
pub open spec fn element_value(e: StringNumber, inputs: InputsView) -> Option<u32> {
    match e {
        StringNumber::F32(v) => Some(v),
        StringNumber::String(s) => match slot_reference(e) {
            Some(name) => if starts_with_char(name, '@') || !inputs.numeric.contains_key(name) {
                None
            } else {
                Some(inputs.numeric[name].0)
            },
            None => None,
        },
    }
}

/// The components a declaration resolves to: nothing when the number of
/// elements does not suit the type or an element gives nothing; a colour
/// keeps its first three components.
pub open spec fn resolved(slot: StateSlot, inputs: InputsView) -> Option<Seq<u32>> {
    let es = slot_elements(slot.value);
    if !arity_fits(slot.slot_type, es.len() as int) {
        None
    } else if exists|i: int| 0 <= i < es.len() && (#[trigger] element_value(es[i], inputs)) is None {
        None
    } else {
        let all = Seq::new(es.len(), |i: int| element_value(es[i], inputs)->0);
        Some(
            if slot.slot_type == StateSlotType::Color {
                all.take(3)
            } else {
                all
            },
        )
    }
}

/// A declaration resolves exactly when it has as many elements as its type
/// takes (one for a scalar, two for a vector or a position, three or four
/// for a colour) and every element stands for a number; it then gives those
/// numbers in order, a colour only its first three.
pub proof fn law_resolved(slot: StateSlot, inputs: InputsView)
    ensures
        ({
            let es = slot_elements(slot.value);
            let n = es.len();
            let fits = (slot.slot_type == StateSlotType::Scalar && n == 1) || ((slot.slot_type
                == StateSlotType::Vector || slot.slot_type == StateSlotType::Position) && n == 2) || (
            slot.slot_type == StateSlotType::Color && (n == 3 || n == 4));
            &&& resolved(slot, inputs) is Some <==> (fits && forall|i: int|
                0 <= i < n ==> (#[trigger] element_value(es[i], inputs)) is Some)
            &&& resolved(slot, inputs) matches Some(r) ==> {
                &&& r.len() == (if slot.slot_type == StateSlotType::Color {
                    3
                } else {
                    n
                })
                &&& forall|i: int| 0 <= i < r.len() ==> r[i] == (#[trigger] element_value(es[i], inputs))->0
            }
        }),
{
}

/// An element that is a number stands for itself; `$name` stands for the
/// current value of the declared numeric input `name` (not a built-in one).
pub proof fn law_element_value(v: u32, reference: String, inputs: InputsView)
    ensures
        element_value(StringNumber::F32(v), inputs) == Some(v),
        starts_with_char(reference@, '$') && !starts_with_char(reference@.skip(1), '@')
            && inputs.numeric.contains_key(reference@.skip(1)) ==> element_value(
            StringNumber::String(reference),
            inputs,
        ) == Some(inputs.numeric[reference@.skip(1)].0),
        !starts_with_char(reference@, '$') ==> element_value(StringNumber::String(reference), inputs) is None,
{
}

/// The inputs referenced by `es`, in order.
pub open spec fn references(es: Seq<StringNumber>) -> Seq<Seq<char>>
    decreases es.len(),
{
    if es.len() == 0 {
        Seq::empty()
    } else {
        references(es.drop_last()) + match slot_reference(es.last()) {
            Some(name) => seq![name],
            None => Seq::empty(),
        }
    }
}

/// `slot_reference` on values: the text after a leading `$`.
fn reference_of(e: &StringNumber) -> (r: Option<String>)
    ensures
        match r {
            Some(name) => slot_reference(*e) == Some(name@),
            None => slot_reference(*e) is None,
        },
{
    match e {
        StringNumber::String(s) => {
            let chars = chars_of(s.as_str());
            if chars.len() > 0 && chars[0] == '$' {
                Some(string_of(&slice_chars(&chars, 1, chars.len())))
            } else {
                None
            }
        },
        StringNumber::F32(_) => None,
    }
}

/// `element_value` on values.
fn element_value_of(e: &StringNumber, inputs: &InputManager) -> (r: Option<u32>)
    ensures
        r == element_value(*e, inputs@),
{
    match e {
        StringNumber::F32(v) => Some(*v),
        StringNumber::String(_) => match reference_of(e) {
            Some(name) => {
                if str_starts_with_char(name.as_str(), '@') {
                    None
                } else {
                    inputs.get_numeric(name.as_str())
                }
            },
            None => None,
        },
    }
}

impl StateSlot {
    /// The numeric inputs the declaration references (`$name` elements), in
    /// order.
    pub fn referenced_inputs(&self) -> (r: Vec<String>)
        ensures
            texts(r@) == references(slot_elements(self.value)),
    {
        let mut names: Vec<String> = Vec::new();
        match &self.value {
            StateSlotValue::Single(e) => {
                assert(seq![*e].drop_last() =~= Seq::<StringNumber>::empty());
                assert(references(Seq::<StringNumber>::empty()) == Seq::<Seq<char>>::empty());
                if let Some(name) = reference_of(e) {
                    names.push(name);
                }
                assert(texts(names@) =~= references(seq![*e]));
            },
            StateSlotValue::Multi(es) => {
                for i in 0..es.len()
                    invariant
                        texts(names@) == references(es@.take(i as int)),
                {
                    assert(es@.take(i + 1).drop_last() =~= es@.take(i as int));
                    let ghost before = names@;
                    if let Some(name) = reference_of(&es[i]) {
                        names.push(name);
                    }
                    assert(texts(names@) =~= references(es@.take(i + 1)));
                }
                assert(es@.take(es@.len() as int) =~= es@);
            },
        }
        names
    }

    /// The components the declaration resolves to (see `resolved`).
    pub fn resolve(&self, inputs: &InputManager) -> (r: Option<Vec<u32>>)
        ensures
            match r {
                Some(v) => resolved(*self, inputs@) == Some(v@),
                None => resolved(*self, inputs@) is None,
            },
    {
        let ghost es = slot_elements(self.value);
        let n: usize = match &self.value {
            StateSlotValue::Single(_) => 1,
            StateSlotValue::Multi(v) => v.len(),
        };
        let fits = match self.slot_type {
            StateSlotType::Scalar => n == 1,
            StateSlotType::Vector | StateSlotType::Position => n == 2,
            StateSlotType::Color => 3 <= n && n <= 4,
        };
        if !fits {
            return None;
        }
        let mut comps: Vec<u32> = Vec::new();
        match &self.value {
            StateSlotValue::Single(e) => match element_value_of(e, inputs) {
                Some(x) => comps.push(x),
                None => {
                    assert(element_value(es[0], inputs@) is None);
                    return None;
                },
            },
            StateSlotValue::Multi(v) => {
                for i in 0..v.len()
                    invariant
                        es == v@,
                        es == slot_elements(self.value),
                        comps@.len() == i,
                        forall|k: int| 0 <= k < i ==> element_value(#[trigger] es[k], inputs@) == Some(comps@[k]),
                {
                    match element_value_of(&v[i], inputs) {
                        Some(x) => comps.push(x),
                        None => {
                            assert(element_value(es[i as int], inputs@) is None);
                            return None;
                        },
                    }
                }
            },
        }
        assert(comps@.len() == es.len());
        assert(forall|k: int| 0 <= k < es.len() ==> element_value(#[trigger] es[k], inputs@) == Some(comps@[k]));
        let ghost all = Seq::new(es.len(), |i: int| element_value(es[i], inputs@)->0);
        assert(all =~= comps@);
        if self.slot_type == StateSlotType::Color {
            let mut first: Vec<u32> = Vec::new();
            for i in 0..3
                invariant
                    comps@.len() >= 3,
                    first@ == comps@.take(i as int),
            {
                first.push(comps[i]);
                assert(comps@.take(i + 1) =~= comps@.take(i as int).push(comps@[i as int]));
            }
            return Some(first);
        }
        Some(comps)
    }
}

} // verus!
