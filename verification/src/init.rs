//! The decisions of the display set-up: open the I2C bus, start the
//! display, and start over after a pause whenever a step fails.

use vstd::prelude::*;

verus! {

/// What a step of the display set-up reports.
#[derive(Debug, Clone, Copy, PartialEq, Eq, Structural)]
pub enum DisplaySetupEvent {
    /// The I2C bus opened.
    BusOpened,
    /// The I2C bus could not be opened.
    BusFailed,
    /// The display answered its initialisation.
    DisplayStarted,
    /// The display did not answer its initialisation.
    DisplayFailed,
}

/// What the display set-up does next.
#[derive(Debug, Clone, Copy, PartialEq, Eq, Structural)]
pub enum DisplaySetupAction {
    /// Build the display driver on the open bus and initialise it.
    StartDisplay,
    /// Wait `secs` seconds, then start over from opening the bus.
    RetryAfter { secs: u64 },
    /// Flush the (empty) display and hand it over.
    Finish,
}

/// The pause before the set-up starts over, in seconds.
pub open spec fn retry_pause() -> u64 {
    5
}

/// Decides the next step of the display set-up: an open bus leads to
/// starting the display, a started display is flushed and handed over, and
/// any failure starts everything over after 5 seconds.
pub fn disp_step(event: DisplaySetupEvent) -> (res: DisplaySetupAction)
    ensures
        event == DisplaySetupEvent::BusOpened ==> res == DisplaySetupAction::StartDisplay,
        event == DisplaySetupEvent::DisplayStarted ==> res == DisplaySetupAction::Finish,
        event == DisplaySetupEvent::BusFailed || event == DisplaySetupEvent::DisplayFailed
            ==> res == (DisplaySetupAction::RetryAfter { secs: retry_pause() }),
{
    match event {
        DisplaySetupEvent::BusOpened => DisplaySetupAction::StartDisplay,
        DisplaySetupEvent::DisplayStarted => DisplaySetupAction::Finish,
        DisplaySetupEvent::BusFailed => DisplaySetupAction::RetryAfter { secs: 5 },
        DisplaySetupEvent::DisplayFailed => DisplaySetupAction::RetryAfter { secs: 5 },
    }
}

} // verus!
