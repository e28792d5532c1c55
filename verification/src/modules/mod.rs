pub mod cooldowns;
pub mod mounts;
