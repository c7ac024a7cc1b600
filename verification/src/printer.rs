//! Fitting matched lines into the display window.

pub mod legacy;
pub mod truncation;
pub mod width;
