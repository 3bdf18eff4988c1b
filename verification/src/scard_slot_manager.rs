use vstd::prelude::*;

verus! {

/// The `TKSmartCardSlot.State` values.
#[derive(Debug, Clone, Copy, PartialEq, Eq, Structural)]
pub enum SlotState {
    Missing,
    Empty,
    Probing,
    MuteCard,
    ValidCard,
}

impl SlotState {
    /// The state for a raw value; values outside 1 to 4 are `Missing`.
    pub open spec fn spec_from_raw(raw: i32) -> Self {
        if raw == 1 {
            SlotState::Empty
        } else if raw == 2 {
            SlotState::Probing
        } else if raw == 3 {
            SlotState::MuteCard
        } else if raw == 4 {
            SlotState::ValidCard
        } else {
            SlotState::Missing
        }
    }

    /// Maps a raw `TKSmartCardSlot.State` value to its state; any value
    /// outside 1 to 4 is `Missing`.
    pub fn from_raw(raw: i32) -> (r: Self)
        ensures
            r == Self::spec_from_raw(raw),
    {
        match raw {
            1 => SlotState::Empty,
            2 => SlotState::Probing,
            3 => SlotState::MuteCard,
            4 => SlotState::ValidCard,
            _ => SlotState::Missing,
        }
    }
}

/// The states of a slot in the order of their `TKSmartCardSlot.State`
/// numbers, which is also the order a slot goes through as a card arrives:
/// no reader, an empty reader, a card being probed, then a mute or a valid
/// card.
pub open spec fn slot_states_in_order() -> Seq<SlotState> {
    seq![SlotState::Missing, SlotState::Empty, SlotState::Probing, SlotState::MuteCard, SlotState::ValidCard]
}

impl SlotState {
    /// The `TKSmartCardSlot.State` number of this state.
    pub open spec fn spec_raw(self) -> i32 {
        match self {
            SlotState::Missing => 0,
            SlotState::Empty => 1,
            SlotState::Probing => 2,
            SlotState::MuteCard => 3,
            SlotState::ValidCard => 4,
        }
    }
}

/// Law: the number `i` from 0 to 4 is read as the state at position `i` of
/// the slot's progression, and any other number as `Missing`; every state is
/// read back from its own number, and the numbers grow along the progression
/// (a card is probed before it is found mute, and a mute card comes before a
/// valid one).
pub proof fn law_slot_state_numbers(raw: i32, state: SlotState)
    ensures
        0 <= raw < 5 ==> SlotState::spec_from_raw(raw) == slot_states_in_order()[raw as int],
        !(0 <= raw < 5) ==> SlotState::spec_from_raw(raw) == SlotState::Missing,
        SlotState::spec_from_raw(state.spec_raw()) == state,
        slot_states_in_order()[state.spec_raw() as int] == state,
        SlotState::Missing.spec_raw() < SlotState::Empty.spec_raw(),
        SlotState::Empty.spec_raw() < SlotState::Probing.spec_raw(),
        SlotState::Probing.spec_raw() < SlotState::MuteCard.spec_raw(),
        SlotState::MuteCard.spec_raw() < SlotState::ValidCard.spec_raw(),
{
}

/// Receives the state changes of an observed slot.
///
/// The bindings call `did_change_state` with each new state of the slot;
/// implementors override it, and by default it does nothing.
pub trait SlotStateDelegate: Send {
    /// Called with each new state of the observed slot.
    fn did_change_state(&mut self, state: SlotState) {
        let _ = state;
    }
}

} // verus!
