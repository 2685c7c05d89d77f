//! Command-line control of a networked key light: validated parsing of the
//! user's command and the ordered sequence of device operations it implies.

pub mod address;
pub mod decimal;
pub mod intent;
pub mod session;
