//! Building blocks that the public modules are made of.

pub mod events;
