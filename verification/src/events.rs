//! Event and additional [`EventDispatcher`] implementations.

use vstd::prelude::*;
use crate::models::events::registered;
pub use crate::models::events::{AnySubscriber, Event, EventDispatcher, EventKind, Payload, Subscriber};

verus! {

/// Event emitted when the first tile of the board is revealed (when the game starts).
pub struct GameStartEvent;

impl Event for GameStartEvent {
    type Context = ();

    open spec fn kind() -> EventKind {
        EventKind::GameStart
    }

    fn identity() -> (kind: EventKind) {
        EventKind::GameStart
    }

    proof fn lemma_kind_carries_context(subscriber: AnySubscriber) {
    }
}

/// Event emitted when a game ends. The tile last flagged or revealed is passed as context.
pub struct GameEndEvent;

impl Event for GameEndEvent {
    type Context = Vec<usize>;

    open spec fn kind() -> EventKind {
        EventKind::GameEnd
    }

    fn identity() -> (kind: EventKind) {
        EventKind::GameEnd
    }

    proof fn lemma_kind_carries_context(subscriber: AnySubscriber) {
    }
}

/// Event emitted when mines are placed on a board. The amount of mines successfully placed is
/// passed as context.
pub struct MinesPlacedEvent;

impl Event for MinesPlacedEvent {
    type Context = usize;

    open spec fn kind() -> EventKind {
        EventKind::MinesPlaced
    }

    fn identity() -> (kind: EventKind) {
        EventKind::MinesPlaced
    }

    proof fn lemma_kind_carries_context(subscriber: AnySubscriber) {
    }
}

/// Event emitted when a tile is revealed on the board. The position of the tile revealed is
/// passed as context.
pub struct TileRevealedEvent;

impl Event for TileRevealedEvent {
    type Context = Vec<usize>;

    open spec fn kind() -> EventKind {
        EventKind::TileRevealed
    }

    fn identity() -> (kind: EventKind) {
        EventKind::TileRevealed
    }

    proof fn lemma_kind_carries_context(subscriber: AnySubscriber) {
    }
}

/// Event emitted when a tile is flagged on the board. The position of the tile flagged is passed
/// as context.
pub struct TileFlaggedEvent;

impl Event for TileFlaggedEvent {
    type Context = Vec<usize>;

    open spec fn kind() -> EventKind {
        EventKind::TileFlagged
    }

    fn identity() -> (kind: EventKind) {
        EventKind::TileFlagged
    }

    proof fn lemma_kind_carries_context(subscriber: AnySubscriber) {
    }
}

impl EventDispatcher {
    /// Register a callback for [`GameStartEvent`].
    pub fn on_start(&mut self, callback: impl Fn(()) + Send + Sync + 'static)
        requires
            old(self).wf(),
            forall|context: ()| call_requires(callback, (context,)),
        ensures
            final(self).wf(),
            final(self)@ == registered(
                old(self)@,
                EventKind::GameStart,
                AnySubscriber::Unit(Subscriber::of(callback)),
            ),
    {
        self.subscribe::<GameStartEvent>(Subscriber::new(callback));
    }

    /// Register a callback for [`GameEndEvent`].
    pub fn on_end(&mut self, callback: impl Fn(Vec<usize>) + Send + Sync + 'static)
        requires
            old(self).wf(),
            forall|context: Vec<usize>| call_requires(callback, (context,)),
        ensures
            final(self).wf(),
            final(self)@ == registered(
                old(self)@,
                EventKind::GameEnd,
                AnySubscriber::Position(Subscriber::of(callback)),
            ),
    {
        self.subscribe::<GameEndEvent>(Subscriber::new(callback));
    }

    /// Register a callback for [`MinesPlacedEvent`].
    pub fn on_placed_mines(&mut self, callback: impl Fn(usize) + Send + Sync + 'static)
        requires
            old(self).wf(),
            forall|context: usize| call_requires(callback, (context,)),
        ensures
            final(self).wf(),
            final(self)@ == registered(
                old(self)@,
                EventKind::MinesPlaced,
                AnySubscriber::Count(Subscriber::of(callback)),
            ),
    {
        self.subscribe::<MinesPlacedEvent>(Subscriber::new(callback));
    }

    /// Register a callback for [`TileRevealedEvent`].
    pub fn on_tile_revealed(&mut self, callback: impl Fn(Vec<usize>) + Send + Sync + 'static)
        requires
            old(self).wf(),
            forall|context: Vec<usize>| call_requires(callback, (context,)),
        ensures
            final(self).wf(),
            final(self)@ == registered(
                old(self)@,
                EventKind::TileRevealed,
                AnySubscriber::Position(Subscriber::of(callback)),
            ),
    {
        self.subscribe::<TileRevealedEvent>(Subscriber::new(callback));
    }

    /// Register a callback for [`TileFlaggedEvent`].
    pub fn on_tile_flagged(&mut self, callback: impl Fn(Vec<usize>) + Send + Sync + 'static)
        requires
            old(self).wf(),
            forall|context: Vec<usize>| call_requires(callback, (context,)),
        ensures
            final(self).wf(),
            final(self)@ == registered(
                old(self)@,
                EventKind::TileFlagged,
                AnySubscriber::Position(Subscriber::of(callback)),
            ),
    {
        self.subscribe::<TileFlaggedEvent>(Subscriber::new(callback));
    }
}

} // verus!
