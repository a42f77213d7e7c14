//! A dispatcher that sends a script to one of several scripting backends and
//! hands back a typed host value, or a failure tagged with the backend that
//! reported it.

pub mod js;
pub mod lua;
pub mod scripting;
