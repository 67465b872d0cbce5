//! The logic of a desktop helper process: it pastes text, simulates key presses,
//! reports the focused application and watches the keyboard on behalf of a
//! parent application that talks to it over pipes.
//!
//! Everything here works on plain values. Reading pipes and devices, asking the
//! display server and starting programs is left to the program around it.
pub mod backend;
pub mod bytes;
pub mod capture;
pub mod dispatch;
pub mod event;
pub mod json;
pub mod keymap;
pub mod paste;
pub mod text;
