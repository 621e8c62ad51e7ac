//! The logic of a launcher that runs actions when Wayland toplevel windows
//! become active or stop being active. Windows, the actions bound to them,
//! the actions that move PulseAudio's loopback to a chosen source, and the
//! messages that change them are modelled here and verified; the window
//! system, the GUI and the processes that actions run are the caller's.

use vstd::prelude::*;

pub mod actions;
pub mod handle;
pub mod ids;
pub mod laws;
pub mod pactl;
pub mod positions;
pub mod state;
pub mod text;
pub mod wayland;

pub use actions::ActionStore;
pub use handle::{ActivityChange, TLHandleActions};
pub use ids::{ActionDataID, ActionDesc, EventDesc, GeneratorIndex};
pub use pactl::{ActionGenerator, GeneratorError, PaSource, PactlAction, PactlActionGenerator};
pub use state::{ActionRow, HandleEvent, HandleEventOutcome, HandleRow, IcedMessage, IcedState};
pub use wayland::{WLIcedMessage, Wayland};

verus! {

} // verus!
