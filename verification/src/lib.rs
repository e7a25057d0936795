//! Power-button daemon core: a press-duration classifier for the single
//! hardware power key of a handheld gaming computer, together with the
//! dispatch rules that turn a classified press into an action.

pub mod powerbutton;
pub mod steam;
