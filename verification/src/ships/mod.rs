pub mod damageables;
pub mod exploration;
pub mod heartbeats;
pub mod identifications;
pub mod positions;
