//! Hypersweeper is the backend of a minesweeper game whose boards may have any
//! size and any number of dimensions. It holds the logic of a game and no user
//! interface.
//!
//! # Tiles
//! [`tile::GridTiles`] packs the flags of eight tiles into three bytes. A board
//! is made of many such groups, so that its memory grows by three bits with
//! each tile.
//!
//! # Events
//! A board tells its user what has changed, so that nobody has to look through
//! the whole board after every move. [`events::EventDispatcher`] keeps the
//! callbacks that were registered for each kind of event and calls them when
//! the event is emitted. The module [`events`] lists the events.

pub mod bits;
pub mod events;
pub mod models;
pub mod tile;
