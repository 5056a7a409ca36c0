//! Physics-side bookkeeping that needs no simulation: the driver's container
//! reservations and the collision-layer table.

pub mod budget;
pub mod layers;
pub mod contacts;
