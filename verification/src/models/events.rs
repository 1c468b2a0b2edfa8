//! The [`Event`] abstraction and the [`EventDispatcher`] that delivers events to
//! their subscribers.
//!
//! An event kind is a marker type with one payload type, its context. The
//! dispatcher keeps, for each kind, the subscribers in the order in which they
//! were registered. Subscribers of all payload types share one list type: each
//! is stored behind a tag that names its payload type, and the tag is checked
//! again whenever an event is emitted.

use vstd::prelude::*;
use std::collections::HashMap;

verus! {

broadcast use vstd::std_specs::hash::group_hash_axioms;

/// What the dispatcher needs of a stored callback. Every closure that takes the
/// payload by value and can be shared between threads is one.
trait Callback<C>: Send + Sync {
    /// Whether the callback may be handed `context`.
    spec fn accepts(&self, context: C) -> bool;

    /// Holds of `context` once the callback has run on it.
    spec fn delivered(&self, context: C) -> bool;

    /// Runs the callback on `context`.
    fn notify(&self, context: C)
        requires
            self.accepts(context),
        ensures
            self.delivered(context),
    ;
}

impl<C, F: Fn(C) + Send + Sync> Callback<C> for F {
    spec fn accepts(&self, context: C) -> bool {
        call_requires(*self, (context,))
    }

    spec fn delivered(&self, context: C) -> bool {
        call_ensures(*self, (context,), ())
    }

    fn notify(&self, context: C) {
        self(context)
    }
}

/// An event subscriber: a callback that takes any context of type `C`.
#[verifier::reject_recursive_types(C)]
pub struct Subscriber<C> {
    callback: Box<dyn Callback<C>>,
}

impl<C> Subscriber<C> {
    #[verifier::type_invariant]
    spec fn accepts_every_context(&self) -> bool {
        forall|context: C| self.callback.accepts(context)
    }

    /// Holds of `context` once the subscriber has been notified of it. For a
    /// subscriber made by [`Subscriber::new`] this is the postcondition of the
    /// wrapped callback.
    pub closed spec fn delivered(&self, context: C) -> bool {
        self.callback.delivered(context)
    }

    /// The subscriber that wraps `callback`.
    pub closed spec fn of<F: Fn(C) + Send + Sync + 'static>(callback: F) -> Self {
        Subscriber { callback: Box::new(callback) }
    }

    /// To have notified the subscriber that wraps `callback` is to have called
    /// `callback`.
    pub proof fn lemma_delivered_is_called<F: Fn(C) + Send + Sync + 'static>(callback: F)
        ensures
            forall|context: C| #[trigger]
                Self::of(callback).delivered(context) == call_ensures(callback, (context,), ()),
    {
    }

    /// Wraps a callback that can be called on every context.
    pub fn new<F: Fn(C) + Send + Sync + 'static>(callback: F) -> (subscriber: Self)
        requires
            forall|context: C| call_requires(callback, (context,)),
        ensures
            subscriber == Self::of(callback),
    {
        Subscriber { callback: Box::new(callback) }
    }

    /// Calls the subscriber with `context`.
    pub fn notify(&self, context: C)
        ensures
            self.delivered(context),
    {
        proof {
            use_type_invariant(self);
        }
        self.callback.notify(context)
    }
}

/// The kinds of event that a board emits.
#[derive(Clone, Copy, PartialEq, Eq, Structural, Debug)]
pub enum EventKind {
    /// The first tile was revealed.
    GameStart,
    /// The game is over.
    GameEnd,
    /// Mines were placed.
    MinesPlaced,
    /// A tile was revealed.
    TileRevealed,
    /// A tile was flagged.
    TileFlagged,
}

impl EventKind {
    /// The key under which the subscribers of this kind are stored.
    pub open spec fn key(self) -> u8 {
        match self {
            EventKind::GameStart => 0,
            EventKind::GameEnd => 1,
            EventKind::MinesPlaced => 2,
            EventKind::TileRevealed => 3,
            EventKind::TileFlagged => 4,
        }
    }

    /// Computes [`EventKind::key`].
    pub fn tag(self) -> (key: u8)
        ensures
            key == self.key(),
    {
        match self {
            EventKind::GameStart => 0,
            EventKind::GameEnd => 1,
            EventKind::MinesPlaced => 2,
            EventKind::TileRevealed => 3,
            EventKind::TileFlagged => 4,
        }
    }
}

/// A subscriber whose payload type has been moved into a tag, so that
/// subscribers of every payload type fit in one list.
pub enum AnySubscriber {
    /// Takes no context.
    Unit(Subscriber<()>),
    /// Takes a count.
    Count(Subscriber<usize>),
    /// Takes the coordinates of a tile.
    Position(Subscriber<Vec<usize>>),
}

/// Whether a subscriber stored for `kind` has the payload type of `kind`.
pub open spec fn carries(kind: EventKind, subscriber: AnySubscriber) -> bool {
    match kind {
        EventKind::GameStart => subscriber is Unit,
        EventKind::MinesPlaced => subscriber is Count,
        EventKind::GameEnd | EventKind::TileRevealed | EventKind::TileFlagged => subscriber is Position,
    }
}

/// A type that can be the context of an event: it knows under which tag its
/// subscribers are stored and how to get them back.
pub trait Payload: Send + Sync + Sized {
    /// Whether `copy` holds the same data as `self`.
    spec fn same(&self, copy: &Self) -> bool;

    /// A copy that holds the same data.
    fn duplicate(&self) -> (copy: Self)
        ensures
            self.same(&copy),
    ;

    /// `callback` behind the tag of this payload type.
    spec fn erased(callback: Subscriber<Self>) -> AnySubscriber;

    /// The subscriber behind the tag, if the tag is that of this payload type.
    spec fn typed(subscriber: AnySubscriber) -> Option<Subscriber<Self>>;

    /// What was stored comes back.
    proof fn lemma_typed_inverts_erased(callback: Subscriber<Self>)
        ensures
            Self::typed(Self::erased(callback)) == Some(callback),
    ;

    /// Moves the payload type of `callback` into a tag.
    fn erase(callback: Subscriber<Self>) -> (subscriber: AnySubscriber)
        ensures
            subscriber == Self::erased(callback),
    ;

    /// Checks the tag and hands out the subscriber where it is the tag of this
    /// payload type.
    fn downcast(subscriber: &AnySubscriber) -> (callback: Option<&Subscriber<Self>>)
        ensures
            match callback {
                Some(callback) => Self::typed(*subscriber) == Some(*callback),
                None => Self::typed(*subscriber) is None,
            },
    ;
}

impl Payload for () {
    open spec fn same(&self, copy: &()) -> bool {
        *self == *copy
    }

    fn duplicate(&self) -> (copy: ()) {
    }

    open spec fn erased(callback: Subscriber<()>) -> AnySubscriber {
        AnySubscriber::Unit(callback)
    }

    open spec fn typed(subscriber: AnySubscriber) -> Option<Subscriber<()>> {
        match subscriber {
            AnySubscriber::Unit(callback) => Some(callback),
            _ => None,
        }
    }

    proof fn lemma_typed_inverts_erased(callback: Subscriber<()>) {
    }

    fn erase(callback: Subscriber<()>) -> (subscriber: AnySubscriber) {
        AnySubscriber::Unit(callback)
    }

    fn downcast(subscriber: &AnySubscriber) -> (callback: Option<&Subscriber<()>>) {
        match subscriber {
            AnySubscriber::Unit(callback) => Some(callback),
            _ => None,
        }
    }
}

impl Payload for usize {
    open spec fn same(&self, copy: &usize) -> bool {
        *self == *copy
    }

    fn duplicate(&self) -> (copy: usize) {
        *self
    }

    open spec fn erased(callback: Subscriber<usize>) -> AnySubscriber {
        AnySubscriber::Count(callback)
    }

    open spec fn typed(subscriber: AnySubscriber) -> Option<Subscriber<usize>> {
        match subscriber {
            AnySubscriber::Count(callback) => Some(callback),
            _ => None,
        }
    }

    proof fn lemma_typed_inverts_erased(callback: Subscriber<usize>) {
    }

    fn erase(callback: Subscriber<usize>) -> (subscriber: AnySubscriber) {
        AnySubscriber::Count(callback)
    }

    fn downcast(subscriber: &AnySubscriber) -> (callback: Option<&Subscriber<usize>>) {
        match subscriber {
            AnySubscriber::Count(callback) => Some(callback),
            _ => None,
        }
    }
}

impl Payload for Vec<usize> {
    open spec fn same(&self, copy: &Vec<usize>) -> bool {
        self@ == copy@
    }

    fn duplicate(&self) -> (copy: Vec<usize>) {
        self.clone()
    }

    open spec fn erased(callback: Subscriber<Vec<usize>>) -> AnySubscriber {
        AnySubscriber::Position(callback)
    }

    open spec fn typed(subscriber: AnySubscriber) -> Option<Subscriber<Vec<usize>>> {
        match subscriber {
            AnySubscriber::Position(callback) => Some(callback),
            _ => None,
        }
    }

    proof fn lemma_typed_inverts_erased(callback: Subscriber<Vec<usize>>) {
    }

    fn erase(callback: Subscriber<Vec<usize>>) -> (subscriber: AnySubscriber) {
        AnySubscriber::Position(callback)
    }

    fn downcast(subscriber: &AnySubscriber) -> (callback: Option<&Subscriber<Vec<usize>>>) {
        match subscriber {
            AnySubscriber::Position(callback) => Some(callback),
            _ => None,
        }
    }
}

/// Types representing events.
pub trait Event: Send + Sync + 'static {
    /// Data or context associated with an event.
    type Context: Payload;

    /// The kind that this marker stands for.
    spec fn kind() -> EventKind;

    /// Computes [`Event::kind`].
    fn identity() -> (kind: EventKind)
        ensures
            kind == Self::kind(),
    ;

    /// The subscribers stored for the kind of this event are those of its
    /// context type.
    proof fn lemma_kind_carries_context(subscriber: AnySubscriber)
        ensures
            carries(Self::kind(), subscriber) <==> Self::Context::typed(subscriber) is Some,
    ;
}

/// The subscribers of every kind: the state of a dispatcher.
pub type Registrations = Map<EventKind, Seq<AnySubscriber>>;

/// The state of a dispatcher nobody has subscribed to.
pub open spec fn no_registrations() -> Registrations {
    Map::total(|kind: EventKind| Seq::<AnySubscriber>::empty())
}

/// The state after `subscriber` has been registered for `kind`: it stands at
/// the end of the list of `kind`, and no other list has changed.
pub open spec fn registered(state: Registrations, kind: EventKind, subscriber: AnySubscriber) -> Registrations {
    state.insert(kind, state[kind].push(subscriber))
}

/// Whether `subscriber` holds a callback for contexts of type `C` that has been
/// notified of a copy of `context`.
pub open spec fn received<C: Payload>(subscriber: AnySubscriber, context: C) -> bool {
    C::typed(subscriber) matches Some(callback) && exists|copy: C|
        context.same(&copy) && #[trigger] callback.delivered(copy)
}

/// Whether each of `subscribers`, from the first to the last, has been notified
/// of a copy of `context`.
pub open spec fn notified_all<C: Payload>(subscribers: Seq<AnySubscriber>, context: C) -> bool {
    forall|i: int| 0 <= i < subscribers.len() ==> received::<C>(#[trigger] subscribers[i], context)
}

/// Whether each of `subscribers` that takes contexts of type `C` has been
/// notified of a copy of `context`.
pub open spec fn notified_matching<C: Payload>(subscribers: Seq<AnySubscriber>, context: C) -> bool {
    forall|i: int|
        0 <= i < subscribers.len() && C::typed(#[trigger] subscribers[i]) is Some ==> received::<C>(
            subscribers[i],
            context,
        )
}

/// A struct holding event subscribers and emitting events.
pub struct EventDispatcher {
    /// The subscribers of each kind, under the key of the kind.
    subscribers: HashMap<u8, Vec<AnySubscriber>>,
}

impl View for EventDispatcher {
    type V = Registrations;

    /// For every kind its subscribers in the order of registration.
    open spec fn view(&self) -> Registrations {
        Map::total(|kind: EventKind| self.subscribers_of(kind))
    }
}

impl EventDispatcher {
    /// The subscribers of `kind` in the order of registration; none where no
    /// list has been made for `kind` yet.
    pub closed spec fn subscribers_of(&self, kind: EventKind) -> Seq<AnySubscriber> {
        if self.subscribers@.contains_key(kind.key()) {
            self.subscribers@[kind.key()]@
        } else {
            Seq::empty()
        }
    }

    /// Every stored subscriber has the payload type of the kind that it is
    /// stored for. The constructors establish this and `subscribe` keeps it.
    pub open spec fn wf(&self) -> bool {
        forall|kind: EventKind, i: int|
            0 <= i < self@[kind].len() ==> carries(kind, #[trigger] self@[kind][i])
    }

    /// Create an empty [`EventDispatcher`].
    pub fn new() -> (dispatcher: Self)
        ensures
            dispatcher.wf(),
            dispatcher@ == no_registrations(),
    {
        let dispatcher = Self { subscribers: HashMap::new() };
        assert(dispatcher@ =~= no_registrations());
        dispatcher
    }

    /// Register a callback for a given [`Event`]: it is put at the end of the
    /// list of the kind of the event, which is made first where there is none.
    pub fn subscribe<E: Event>(&mut self, callback: Subscriber<E::Context>)
        requires
            old(self).wf(),
        ensures
            final(self).wf(),
            final(self)@ == registered(old(self)@, E::kind(), E::Context::erased(callback)),
    {
        let key: u8 = E::identity().tag();
        let mut list: Vec<AnySubscriber> = match self.subscribers.remove(&key) {
            Some(list) => list,
            None => Vec::new(),
        };
        let subscriber: AnySubscriber = E::Context::erase(callback);
        proof {
            E::Context::lemma_typed_inverts_erased(callback);
            E::lemma_kind_carries_context(subscriber);
        }
        list.push(subscriber);
        self.subscribers.insert(key, list);
        proof {
            lemma_keys_are_distinct();
            assert(self@ =~= registered(old(self)@, E::kind(), E::Context::erased(callback)));
        }
    }

    /// Emit an [`Event`] with the associated context type: the subscribers of
    /// the kind are notified of a copy of `context` each, in the order of
    /// registration. A stored subscriber of another payload type is passed
    /// over, and the emission goes on with the next; in a well-formed
    /// dispatcher there is none. Nothing is registered or removed.
    pub fn emit<E: Event>(&self, context: E::Context)
        ensures
            notified_matching::<E::Context>(self@[E::kind()], context),
            self.wf() ==> notified_all::<E::Context>(self@[E::kind()], context),
    {
        let key: u8 = E::identity().tag();
        if let Some(subscribers) = self.subscribers.get(&key) {
            let mut i: usize = 0;
            while i < subscribers.len()
                invariant
                    i <= subscribers@.len(),
                    notified_matching::<E::Context>(subscribers@.take(i as int), context),
                decreases subscribers.len() - i,
            {
                if let Some(callback) = E::Context::downcast(&subscribers[i]) {
                    let copy = context.duplicate();
                    let ghost sent = copy;
                    callback.notify(copy);
                    assert(E::Context::typed(subscribers@[i as int])->Some_0.delivered(sent));
                }
                i += 1;
            }
            assert(subscribers@.take(i as int) =~= self@[E::kind()]);
        }
        proof {
            if self.wf() {
                assert forall|i: int| 0 <= i < self@[E::kind()].len() implies received::<E::Context>(
                    #[trigger] self@[E::kind()][i],
                    context,
                ) by {
                    E::lemma_kind_carries_context(self@[E::kind()][i]);
                }
            }
        }
    }
}

impl Default for EventDispatcher {
    /// An empty dispatcher.
    fn default() -> (dispatcher: Self)
        ensures
            dispatcher.wf(),
            dispatcher@ == no_registrations(),
    {
        EventDispatcher::new()
    }
}

/// No two kinds share a key.
pub proof fn lemma_keys_are_distinct()
    ensures
        forall|a: EventKind, b: EventKind| a.key() == b.key() ==> a == b,
{
}

/// The state after the subscribers in `added` have been registered for `kind`,
/// one after the other.
pub open spec fn registered_all(state: Registrations, kind: EventKind, added: Seq<AnySubscriber>) -> Registrations
    decreases added.len(),
{
    if added.len() == 0 {
        state
    } else {
        registered(registered_all(state, kind, added.drop_last()), kind, added.last())
    }
}

/// Registration keeps the order: after a run of registrations for one kind the
/// list of that kind is what it was, followed by the new subscribers, each
/// once and in the order in which they were registered.
pub proof fn lemma_registration_keeps_order(state: Registrations, kind: EventKind, added: Seq<AnySubscriber>)
    ensures
        registered_all(state, kind, added)[kind] == state[kind] + added,
    decreases added.len(),
{
    if added.len() > 0 {
        lemma_registration_keeps_order(state, kind, added.drop_last());
        assert(state[kind] + added =~= (state[kind] + added.drop_last()).push(added.last()));
    } else {
        assert(state[kind] + added =~= state[kind]);
    }
}

/// A dispatcher that starts empty holds, for a kind, exactly the subscribers
/// registered for it.
pub proof fn lemma_registrations_from_empty(kind: EventKind, added: Seq<AnySubscriber>)
    ensures
        registered_all(no_registrations(), kind, added)[kind] == added,
{
    lemma_registration_keeps_order(no_registrations(), kind, added);
    assert(Seq::<AnySubscriber>::empty() + added =~= added);
}

/// Registering for one kind leaves the list of every other kind as it was, so
/// an event of another kind reaches the same subscribers as before.
pub proof fn lemma_registration_keeps_other_kinds(
    state: Registrations,
    kind: EventKind,
    other: EventKind,
    subscriber: AnySubscriber,
)
    requires
        other != kind,
    ensures
        registered(state, kind, subscriber)[other] == state[other],
{
}

/// A run of registrations for one kind leaves the list of every other kind as
/// it was.
pub proof fn lemma_registrations_keep_other_kinds(
    state: Registrations,
    kind: EventKind,
    other: EventKind,
    added: Seq<AnySubscriber>,
)
    requires
        other != kind,
    ensures
        registered_all(state, kind, added)[other] == state[other],
    decreases added.len(),
{
    if added.len() > 0 {
        lemma_registrations_keep_other_kinds(state, kind, other, added.drop_last());
    }
}

/// Every emission that returns, the first as much as a repeated one, has
/// notified every subscriber of the kind of a copy of the context.
pub proof fn lemma_every_emit_notifies<E: Event>(dispatcher: EventDispatcher, context: E::Context)
    requires
        dispatcher.wf(),
        call_ensures(EventDispatcher::emit::<E>, (&dispatcher, context), ()),
    ensures
        notified_all::<E::Context>(dispatcher@[E::kind()], context),
{
}

/// When an event is emitted, each of the subscribers that were registered for
/// its kind is notified, whatever their number and whatever was registered
/// before them.
pub proof fn lemma_emit_reaches_all_registered<E: Event>(
    dispatcher: EventDispatcher,
    before: Registrations,
    added: Seq<AnySubscriber>,
    context: E::Context,
)
    requires
        dispatcher.wf(),
        dispatcher@ == registered_all(before, E::kind(), added),
        call_ensures(EventDispatcher::emit::<E>, (&dispatcher, context), ()),
    ensures
        notified_all::<E::Context>(before[E::kind()], context),
        notified_all::<E::Context>(added, context),
{
    lemma_registration_keeps_order(before, E::kind(), added);
    lemma_every_emit_notifies::<E>(dispatcher, context);
    let all = before[E::kind()] + added;
    assert forall|i: int| 0 <= i < before[E::kind()].len() implies received::<E::Context>(
        #[trigger] before[E::kind()][i],
        context,
    ) by {
        assert(all[i] == before[E::kind()][i]);
    }
    assert forall|i: int| 0 <= i < added.len() implies received::<E::Context>(
        #[trigger] added[i],
        context,
    ) by {
        assert(all[before[E::kind()].len() + i] == added[i]);
    }
}

} // verus!
