//! Verified core of the amiibo writer web service: the naming rules for
//! games and characters, the paths handed to the writer program, and the
//! state machine that turns the writer's output into status updates.

pub mod text;
pub mod paths;
pub mod numbers;
pub mod urlcode;
pub mod names;
pub mod catalog;
pub mod status;
pub mod requests;
pub mod messages;
