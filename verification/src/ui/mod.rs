//! The touch screen interface: what its messages do to its state and which
//! requests they send, and what its settings panel shows.

pub mod control;
pub mod settings_view;
