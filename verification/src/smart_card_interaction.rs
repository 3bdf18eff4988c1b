use vstd::prelude::*;

verus! {

/// The delegate events of `TKSmartCardUserInteraction`.
#[derive(Debug, Clone, Copy, PartialEq, Eq, Structural)]
pub enum SmartCardUserInteractionEvent {
    CharacterEntered,
    CorrectionKeyPressed,
    ValidationKeyPressed,
    InvalidCharacterEntered,
    OldPinRequested,
    NewPinRequested,
    NewPinConfirmationRequested,
}

impl SmartCardUserInteractionEvent {
    /// The raw value of this event on the bridge, 0 to 6.
    pub open spec fn spec_raw(self) -> i32 {
        match self {
            SmartCardUserInteractionEvent::CharacterEntered => 0,
            SmartCardUserInteractionEvent::CorrectionKeyPressed => 1,
            SmartCardUserInteractionEvent::ValidationKeyPressed => 2,
            SmartCardUserInteractionEvent::InvalidCharacterEntered => 3,
            SmartCardUserInteractionEvent::OldPinRequested => 4,
            SmartCardUserInteractionEvent::NewPinRequested => 5,
            SmartCardUserInteractionEvent::NewPinConfirmationRequested => 6,
        }
    }

    /// The event for a raw value; values outside 1 to 6 are `CharacterEntered`.
    pub open spec fn spec_from_raw(raw: i32) -> Self {
        if raw == 1 {
            SmartCardUserInteractionEvent::CorrectionKeyPressed
        } else if raw == 2 {
            SmartCardUserInteractionEvent::ValidationKeyPressed
        } else if raw == 3 {
            SmartCardUserInteractionEvent::InvalidCharacterEntered
        } else if raw == 4 {
            SmartCardUserInteractionEvent::OldPinRequested
        } else if raw == 5 {
            SmartCardUserInteractionEvent::NewPinRequested
        } else if raw == 6 {
            SmartCardUserInteractionEvent::NewPinConfirmationRequested
        } else {
            SmartCardUserInteractionEvent::CharacterEntered
        }
    }

    /// Returns the raw value of this event.
    pub fn raw(self) -> (r: i32)
        ensures
            r == self.spec_raw(),
    {
        match self {
            SmartCardUserInteractionEvent::CharacterEntered => 0,
            SmartCardUserInteractionEvent::CorrectionKeyPressed => 1,
            SmartCardUserInteractionEvent::ValidationKeyPressed => 2,
            SmartCardUserInteractionEvent::InvalidCharacterEntered => 3,
            SmartCardUserInteractionEvent::OldPinRequested => 4,
            SmartCardUserInteractionEvent::NewPinRequested => 5,
            SmartCardUserInteractionEvent::NewPinConfirmationRequested => 6,
        }
    }

    /// Maps a raw value to its event; any value outside 1 to 6 is
    /// `CharacterEntered`.
    pub fn from_raw(raw: i32) -> (r: Self)
        ensures
            r == Self::spec_from_raw(raw),
    {
        match raw {
            1 => SmartCardUserInteractionEvent::CorrectionKeyPressed,
            2 => SmartCardUserInteractionEvent::ValidationKeyPressed,
            3 => SmartCardUserInteractionEvent::InvalidCharacterEntered,
            4 => SmartCardUserInteractionEvent::OldPinRequested,
            5 => SmartCardUserInteractionEvent::NewPinRequested,
            6 => SmartCardUserInteractionEvent::NewPinConfirmationRequested,
            _ => SmartCardUserInteractionEvent::CharacterEntered,
        }
    }
}

/// The events in the order of their `TKSmartCardUserInteraction` numbers: the
/// four key events, then the three PIN requests of a PIN change in the order
/// it makes them (the old PIN, the new PIN, its confirmation).
pub open spec fn interaction_events_in_order() -> Seq<SmartCardUserInteractionEvent> {
    seq![
        SmartCardUserInteractionEvent::CharacterEntered,
        SmartCardUserInteractionEvent::CorrectionKeyPressed,
        SmartCardUserInteractionEvent::ValidationKeyPressed,
        SmartCardUserInteractionEvent::InvalidCharacterEntered,
        SmartCardUserInteractionEvent::OldPinRequested,
        SmartCardUserInteractionEvent::NewPinRequested,
        SmartCardUserInteractionEvent::NewPinConfirmationRequested,
    ]
}

/// Law: the number `i` from 0 to 6 is the event at position `i`, both ways:
/// that event's raw value is `i` and `i` is read as that event; other numbers
/// are read as `CharacterEntered`. The key events come before the PIN
/// requests, and a PIN change's requests are numbered in the order it makes
/// them: old PIN, new PIN, confirmation.
pub proof fn law_event_numbers(raw: i32, event: SmartCardUserInteractionEvent)
    ensures
        0 <= raw < 7 ==> interaction_events_in_order()[raw as int].spec_raw() == raw,
        0 <= raw < 7 ==> SmartCardUserInteractionEvent::spec_from_raw(raw)
            == interaction_events_in_order()[raw as int],
        !(0 <= raw < 7) ==> SmartCardUserInteractionEvent::spec_from_raw(raw)
            == SmartCardUserInteractionEvent::CharacterEntered,
        interaction_events_in_order()[event.spec_raw() as int] == event,
        SmartCardUserInteractionEvent::InvalidCharacterEntered.spec_raw()
            < SmartCardUserInteractionEvent::OldPinRequested.spec_raw(),
        SmartCardUserInteractionEvent::OldPinRequested.spec_raw()
            < SmartCardUserInteractionEvent::NewPinRequested.spec_raw(),
        SmartCardUserInteractionEvent::NewPinRequested.spec_raw()
            < SmartCardUserInteractionEvent::NewPinConfirmationRequested.spec_raw(),
{
}

/// Law: every event survives the trip through its raw value.
pub proof fn law_event_raw_round_trip(event: SmartCardUserInteractionEvent)
    ensures
        SmartCardUserInteractionEvent::spec_from_raw(event.spec_raw()) == event,
{
}

} // verus!
