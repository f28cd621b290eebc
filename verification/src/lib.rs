//! MagicWindows: Apple keyboard layouts and modifier remapping for Windows.
//!
//! The verified core of the app: the layout model and its validation, the
//! detection of the layout a user types on, the generators of the KLC and
//! keyboard-DLL sources, the Scancode Map value behind the modifier and F12
//! settings, and the planning of every PowerShell step the app runs (the
//! scripts, and how their output is read and judged).
pub mod text;
pub mod sort;
pub mod layout;
pub mod catalog;
pub mod detect;
pub mod klc;
pub mod kbd_c;
pub mod scancode_map;
pub mod f12_remap;
pub mod modifiers;
pub mod install;
pub mod json;
pub mod health_check;
pub mod hardware;
pub mod diagnostics;
