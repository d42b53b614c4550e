//! Decision logic of a screen locker that shows a comic on the widest display.
//!
//! The crate decides; it neither spawns a process nor touches a file. A caller
//! runs the display queries and the locker, and hands their outcomes in.

pub mod arguments;
pub mod display;
pub mod enumerate;
pub mod error;
pub mod lock;
pub mod locker;
pub mod path;
pub mod text;
pub mod xrandr;
