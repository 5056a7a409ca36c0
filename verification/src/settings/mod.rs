//! The settings vocabulary: how a chosen option index maps to an applied
//! value, and the option-cycling arithmetic.

pub mod levels;
pub mod options;
pub mod rows;
pub mod graphics;
pub mod route;
pub mod quality_rows;
pub mod apply;
