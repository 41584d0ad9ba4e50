//! The bot: the registry, the state store and the connection, and the
//! decisions of the event loop.

use crate::config::ConnectionDetails;
use crate::registry::{CommandRegistry, RegistryView};
use crate::state::{TypeKey, TypedStateStore};
use crate::text::{
    command_parts, lemma_command_parts_of, lemma_not_a_command, no_white_space, parse_command,
    COMMAND_PREFIX,
};
use crate::util::{params_fit, resolvable, HandlerParamMatcher, Param};
use vstd::prelude::*;

verus! {

/// Where the bot stands between its construction and the end of its loop.
#[derive(Clone, Copy, Debug, PartialEq, Eq, Structural)]
pub enum Phase {
    /// Built; the loop has not started.
    Unauthenticated,
    /// The login was asked for.
    Authenticating,
    /// The first sync, which fixes the starting cursor, was asked for.
    InitialSyncing,
    /// The loop polls for new events.
    Polling,
    /// The loop has ended.
    Terminated,
}

/// What the loop reads of an event of a room's timeline.
#[derive(Debug, PartialEq, Eq)]
pub enum TimelineEvent {
    /// An event that could not be decoded.
    Undecodable,
    /// A text message.
    TextMessage {
        /// The text of the message.
        body: String,
    },
    /// A well-formed event of any other kind.
    Other,
}

/// What a sync response holds of a joined room.
#[derive(Debug, PartialEq, Eq)]
pub struct JoinedRoom {
    /// The identifier of the room.
    pub room_id: String,
    /// The new events of the room, in their order.
    pub timeline: Vec<TimelineEvent>,
}

/// What the loop reads of a sync response.
#[derive(Debug, PartialEq, Eq)]
pub struct SyncResponse {
    /// The cursor from which the next sync goes on.
    pub next_batch: String,
    /// The joined rooms with new events, in the order of the response.
    pub joined: Vec<JoinedRoom>,
    /// The rooms that the bot was invited to; the loop does not act on them.
    pub invited: Vec<String>,
}

/// What the connection reports back to the loop.
#[derive(Debug, PartialEq, Eq)]
pub enum Event<E> {
    /// The login succeeded.
    LoggedIn,
    /// A sync response arrived.
    Synced(SyncResponse),
    /// The stream of sync responses ended.
    StreamEnded,
    /// The login or a sync request failed.
    Failed(E),
}

/// Which events a sync request asks for.
#[derive(Clone, Copy, Debug, PartialEq, Eq, Structural)]
pub enum SyncFilter {
    /// None: the response only fixes a cursor.
    IgnoreAll,
    /// The timelines of the rooms; no account data, room state or presence.
    TimelineOnly,
}

/// What the loop asks of the connection next.
#[derive(Debug, PartialEq, Eq)]
pub enum Request<E> {
    /// Log in, once.
    Login {
        /// The user name.
        username: String,
        /// The password.
        password: String,
    },
    /// Wait for a sync response.
    Sync {
        /// The events to ask for.
        filter: SyncFilter,
        /// The cursor to go on from; `None` for the first sync.
        since: Option<String>,
        /// Whether to show the bot as online.
        set_presence: bool,
    },
    /// End the loop with this result.
    Stop(Result<(), E>),
}

/// The model of a request.
pub enum RequestView<E> {
    /// Log in, once.
    Login {
        /// The user name.
        username: Seq<char>,
        /// The password.
        password: Seq<char>,
    },
    /// Wait for a sync response.
    Sync {
        /// The events to ask for.
        filter: SyncFilter,
        /// The cursor to go on from.
        since: Option<Seq<char>>,
        /// Whether to show the bot as online.
        set_presence: bool,
    },
    /// End the loop with this result.
    Stop(Result<(), E>),
}

impl<E> View for Request<E> {
    type V = RequestView<E>;

    open spec fn view(&self) -> RequestView<E> {
        match *self {
            Request::Login { username, password } => RequestView::Login {
                username: username@,
                password: password@,
            },
            Request::Sync { filter, since, set_presence } => RequestView::Sync {
                filter,
                since: match since {
                    Some(cursor) => Some(cursor@),
                    None => None,
                },
                set_presence,
            },
            Request::Stop(result) => RequestView::Stop(result),
        }
    }
}

/// One handler to invoke, with its resolved context items.
#[derive(Debug, PartialEq, Eq)]
pub struct Invocation<V: Send + Sync> {
    /// The position of the handler in the registry.
    pub handler: usize,
    /// The context items, in the order in which the handler declared them.
    pub params: Vec<Param<V>>,
}

/// What one turn of the loop decides.
#[derive(Debug, PartialEq, Eq)]
pub struct Step<E, V: Send + Sync> {
    /// The handlers to start, in the order of their messages. The loop does
    /// not wait for them.
    pub invocations: Vec<Invocation<V>>,
    /// What to ask of the connection next.
    pub request: Request<E>,
}

/// Where a message body is routed to.
pub struct Route {
    /// The position of the handler in the registry.
    pub handler: int,
    /// The payload of the message.
    pub payload: Seq<char>,
}

/// The handler and the payload that `body` is routed to.
///
/// A body is routed when it is a command occurrence, its command token is
/// bound, and every context item of the handler can be resolved.
pub open spec fn route<H, V>(
    registry: RegistryView<H>,
    store: Map<TypeKey, V>,
    body: Seq<char>,
) -> Option<Route> {
    match command_parts(body) {
        Some((command, payload)) => {
            if registry.bindings.contains_key(command) && resolvable(
                store,
                registry.params[registry.bindings[command]],
            ) {
                Some(Route { handler: registry.bindings[command], payload })
            } else {
                None
            }
        },
        None => None,
    }
}

/// Where an event of a timeline is routed to: only text messages are.
pub open spec fn event_route<H, V>(
    registry: RegistryView<H>,
    store: Map<TypeKey, V>,
    event: TimelineEvent,
) -> Option<Route> {
    match event {
        TimelineEvent::TextMessage { body } => route(registry, store, body@),
        _ => None,
    }
}

/// `event_route` as a function of the event.
pub open spec fn router<H, V>(registry: RegistryView<H>, store: Map<TypeKey, V>) -> spec_fn(
    TimelineEvent,
) -> Option<Route> {
    |event: TimelineEvent| event_route(registry, store, event)
}

/// The routes of the events of a timeline, in their order.
pub open spec fn timeline_routes<H, V>(
    registry: RegistryView<H>,
    store: Map<TypeKey, V>,
    timeline: Seq<TimelineEvent>,
) -> Seq<Route> {
    timeline.filter_map(router(registry, store))
}

/// The events of the rooms, room after room.
pub open spec fn room_events(joined: Seq<JoinedRoom>) -> Seq<TimelineEvent> {
    joined.map_values(|room: JoinedRoom| room.timeline@).flatten()
}

/// Whether `invocation` is what `target` asks for: that handler, with the
/// context items that it declared, resolved against the store and the payload.
pub open spec fn invocation_fits<H, V: Clone + Send + Sync>(
    registry: RegistryView<H>,
    store: Map<TypeKey, V>,
    target: Route,
    invocation: Invocation<V>,
) -> bool {
    &&& invocation.handler == target.handler
    &&& params_fit(store, target.payload, registry.params[target.handler], invocation.params@)
}

/// Whether `invocations` are what `targets` ask for, one for one and in
/// order.
pub open spec fn invocations_fit<H, V: Clone + Send + Sync>(
    registry: RegistryView<H>,
    store: Map<TypeKey, V>,
    targets: Seq<Route>,
    invocations: Seq<Invocation<V>>,
) -> bool {
    &&& invocations.len() == targets.len()
    &&& forall|i: int|
        0 <= i < targets.len() ==> invocation_fits(
            registry,
            store,
            #[trigger] targets[i],
            invocations[i],
        )
}

/// Whether the loop, in `phase`, waits for `event`.
pub open spec fn expects<E>(phase: Phase, event: Event<E>) -> bool {
    match phase {
        Phase::Unauthenticated => false,
        Phase::Authenticating => event is LoggedIn || event is Failed,
        Phase::InitialSyncing => event is Synced || event is Failed,
        Phase::Polling => event is Synced || event is StreamEnded || event is Failed,
        Phase::Terminated => false,
    }
}

/// The phase that follows an expected `event`.
pub open spec fn next_phase<E>(event: Event<E>) -> Phase {
    match event {
        Event::LoggedIn => Phase::InitialSyncing,
        Event::Synced(_) => Phase::Polling,
        Event::StreamEnded => Phase::Terminated,
        Event::Failed(_) => Phase::Terminated,
    }
}

/// The request that follows an expected `event`.
pub open spec fn next_request<E>(event: Event<E>) -> RequestView<E> {
    match event {
        Event::LoggedIn => RequestView::Sync {
            filter: SyncFilter::IgnoreAll,
            since: None,
            set_presence: false,
        },
        Event::Synced(response) => RequestView::Sync {
            filter: SyncFilter::TimelineOnly,
            since: Some(response.next_batch@),
            set_presence: true,
        },
        Event::StreamEnded => RequestView::Stop(Ok(())),
        Event::Failed(error) => RequestView::Stop(Err(error)),
    }
}

/// Whether the loop can go from the phase `from` to the phase `to` in one
/// turn: forward by one phase, on within polling, or to its end.
pub open spec fn follows(from: Phase, to: Phase) -> bool {
    match from {
        Phase::Unauthenticated => to == Phase::Authenticating,
        Phase::Authenticating => to == Phase::InitialSyncing || to == Phase::Terminated,
        Phase::InitialSyncing => to == Phase::Polling || to == Phase::Terminated,
        Phase::Polling => to == Phase::Polling || to == Phase::Terminated,
        Phase::Terminated => false,
    }
}

/// An event that the loop waits for takes it one turn on, never back; once
/// the loop has ended, it waits for nothing.
pub proof fn lemma_loop_moves_forward<E>(phase: Phase, event: Event<E>)
    ensures
        expects(phase, event) ==> follows(phase, next_phase(event)),
        phase == Phase::Terminated ==> !expects(phase, event),
        expects(phase, event) && event is Failed ==> next_phase(event) == Phase::Terminated
            && next_request(event) == RequestView::Stop(Err::<(), E>(event->Failed_0)),
{
}

/// A body made of the prefix, a bound token without white space, a space
/// and any text is routed to the handler that the token is bound to, with
/// that text as payload, provided that the context items of the handler can
/// be resolved; the text may be empty.
pub proof fn lemma_bound_command_is_routed<H, V>(
    registry: RegistryView<H>,
    store: Map<TypeKey, V>,
    token: Seq<char>,
    rest: Seq<char>,
)
    requires
        no_white_space(token),
        registry.bindings.contains_key(token),
        resolvable(store, registry.params[registry.bindings[token]]),
    ensures
        route(registry, store, seq![COMMAND_PREFIX] + token + seq![' '] + rest) == Some(
            Route { handler: registry.bindings[token], payload: rest },
        ),
{
    lemma_command_parts_of(token, rest);
}

/// A body that does not open with the prefix, or that holds no white space,
/// is routed nowhere.
pub proof fn lemma_plain_text_is_not_routed<H, V>(
    registry: RegistryView<H>,
    store: Map<TypeKey, V>,
    body: Seq<char>,
)
    requires
        body.len() == 0 || body[0] != COMMAND_PREFIX || no_white_space(body),
    ensures
        route(registry, store, body) is None,
{
    lemma_not_a_command(body);
}

/// A command occurrence whose token is not bound is routed nowhere.
pub proof fn lemma_unbound_command_is_not_routed<H, V>(
    registry: RegistryView<H>,
    store: Map<TypeKey, V>,
    body: Seq<char>,
)
    requires
        command_parts(body) matches Some((token, _)) && !registry.bindings.contains_key(token),
    ensures
        route(registry, store, body) is None,
{
}

/// A command occurrence whose handler declared a state item that the store
/// does not hold is routed nowhere: the handler is not invoked.
pub proof fn lemma_unresolved_command_is_not_routed<H, V>(
    registry: RegistryView<H>,
    store: Map<TypeKey, V>,
    body: Seq<char>,
)
    requires
        command_parts(body) matches Some((token, _)) && registry.bindings.contains_key(token)
            && !resolvable(store, registry.params[registry.bindings[token]]),
    ensures
        route(registry, store, body) is None,
{
}

/// A response that holds one room with one text message asks for what the
/// body of that message is routed to, and for nothing else.
pub proof fn lemma_routes_of_one_message<H, V>(
    registry: RegistryView<H>,
    store: Map<TypeKey, V>,
    room: JoinedRoom,
    body: String,
)
    requires
        room.timeline@ == seq![TimelineEvent::TextMessage { body }],
    ensures
        timeline_routes(registry, store, room_events(seq![room])) == match route(
            registry,
            store,
            body@,
        ) {
            Some(target) => seq![target],
            None => Seq::empty(),
        },
{
    let f = router(registry, store);
    let g = |room: JoinedRoom| room.timeline@;
    let event = TimelineEvent::TextMessage { body };
    assert(seq![room].map_values(g) == seq![room.timeline@]);
    seq![room.timeline@].lemma_flatten_one_element();
    assert(room_events(seq![room]) == seq![event]);
    Seq::lemma_filter_map_singleton(event, f);
}

/// Filtering distributes over concatenation.
proof fn lemma_filter_map_concat<A, B>(a: Seq<A>, b: Seq<A>, f: spec_fn(A) -> Option<B>)
    ensures
        (a + b).filter_map(f) == a.filter_map(f) + b.filter_map(f),
    decreases b.len(),
{
    if b.len() == 0 {
        assert(a + b == a);
        assert(a.filter_map(f) + b.filter_map(f) == a.filter_map(f));
    } else {
        assert((a + b).drop_last() == a + b.drop_last());
        assert((a + b).last() == b.last());
        lemma_filter_map_concat(a, b.drop_last(), f);
        match f(b.last()) {
            Some(x) => {
                assert((a.filter_map(f) + b.drop_last().filter_map(f)) + seq![x] == a.filter_map(f)
                    + (b.drop_last().filter_map(f) + seq![x]));
            },
            None => {},
        }
    }
}

enum Stage {
    Unauthenticated(ConnectionDetails),
    Authenticating,
    InitialSyncing,
    Polling,
    Terminated,
}

/// A bot with its command handlers, its application state and its
/// connection to the homeserver.
pub struct Bot<C, H, V> {
    client: C,
    handlers: CommandRegistry<H>,
    state: TypedStateStore<V>,
    stage: Stage,
}

impl<C, H, V> Bot<C, H, V> {
    /// The phase of the bot.
    pub closed spec fn phase(&self) -> Phase {
        match self.stage {
            Stage::Unauthenticated(_) => Phase::Unauthenticated,
            Stage::Authenticating => Phase::Authenticating,
            Stage::InitialSyncing => Phase::InitialSyncing,
            Stage::Polling => Phase::Polling,
            Stage::Terminated => Phase::Terminated,
        }
    }

    /// The user name and the password, as long as the bot holds them.
    pub closed spec fn credentials(&self) -> Option<(Seq<char>, Seq<char>)> {
        match self.stage {
            Stage::Unauthenticated(details) => Some((details.username@, details.password@)),
            _ => None,
        }
    }

    /// The registry of the bot.
    pub closed spec fn registry(&self) -> RegistryView<H> {
        self.handlers@
    }

    /// What the state store of the bot holds.
    pub closed spec fn store(&self) -> Map<TypeKey, V> {
        self.state@
    }

    /// The connection of the bot.
    pub closed spec fn connection(&self) -> C {
        self.client
    }

    /// Puts a bot together; its loop has not started.
    pub(crate) fn assemble(
        client: C,
        handlers: CommandRegistry<H>,
        state: TypedStateStore<V>,
        details: ConnectionDetails,
    ) -> (r: Self)
        ensures
            r.phase() == Phase::Unauthenticated,
            r.credentials() == Some((details.username@, details.password@)),
            r.registry() == handlers@,
            r.store() == state@,
            r.connection() == client,
    {
        Bot { client, handlers, state, stage: Stage::Unauthenticated(details) }
    }

    /// The connection to the homeserver.
    pub fn client(&self) -> (r: &C)
        ensures
            *r == self.connection(),
    {
        &self.client
    }

    /// The command registry.
    pub fn handlers(&self) -> (r: &CommandRegistry<H>)
        ensures
            r@ == self.registry(),
    {
        &self.handlers
    }

    /// The state store.
    pub fn state(&self) -> (r: &TypedStateStore<V>)
        ensures
            r@ == self.store(),
    {
        &self.state
    }

    /// The phase that the bot is in.
    pub fn current_phase(&self) -> (r: Phase)
        ensures
            r == self.phase(),
    {
        match self.stage {
            Stage::Unauthenticated(_) => Phase::Unauthenticated,
            Stage::Authenticating => Phase::Authenticating,
            Stage::InitialSyncing => Phase::InitialSyncing,
            Stage::Polling => Phase::Polling,
            Stage::Terminated => Phase::Terminated,
        }
    }
}

impl<C, H, V: Clone + Send + Sync> Bot<C, H, V> {
    /// Decides what a message body asks for.
    ///
    /// Returns the handler that the command token is bound to, with its
    /// resolved context items, or `None` where the body is no command
    /// occurrence, the token is not bound, or an item cannot be resolved.
    pub fn dispatch(&self, body: &str) -> (r: Option<Invocation<V>>)
        ensures
            match r {
                Some(invocation) => route(self.registry(), self.store(), body@) matches Some(target)
                    && invocation_fits(self.registry(), self.store(), target, invocation),
                None => route(self.registry(), self.store(), body@) is None,
            },
    {
        let (command, payload) = match parse_command(body) {
            Some(parts) => parts,
            None => {
                return None;
            },
        };
        let handler = match self.handlers.lookup(command) {
            Some(id) => id,
            None => {
                return None;
            },
        };
        let kinds = match self.handlers.params_of(handler) {
            Some(kinds) => kinds,
            None => {
                return None;
            },
        };
        let matcher = HandlerParamMatcher { bot: self, msg_content: payload };
        match matcher.resolve_all(kinds) {
            Some(params) => Some(Invocation { handler, params }),
            None => None,
        }
    }

    /// Decides what the events of one timeline ask for.
    pub fn collect_timeline(&self, timeline: &Vec<TimelineEvent>) -> (r: Vec<Invocation<V>>)
        ensures
            invocations_fit(
                self.registry(),
                self.store(),
                timeline_routes(self.registry(), self.store(), timeline@),
                r@,
            ),
    {
        let ghost f = router(self.registry(), self.store());
        let mut invocations: Vec<Invocation<V>> = Vec::new();
        let mut i: usize = 0;
        while i < timeline.len()
            invariant
                i <= timeline.len(),
                f == router(self.registry(), self.store()),
                invocations_fit(
                    self.registry(),
                    self.store(),
                    timeline@.take(i as int).filter_map(f),
                    invocations@,
                ),
            decreases timeline.len() - i,
        {
            proof {
                timeline@.lemma_filter_map_take_succ(f, i as int);
            }
            match &timeline[i] {
                TimelineEvent::TextMessage { body } => {
                    match self.dispatch(body.as_str()) {
                        Some(invocation) => {
                            invocations.push(invocation);
                        },
                        None => {},
                    }
                },
                _ => {},
            }
            i += 1;
        }
        assert(timeline@.take(i as int) == timeline@);
        invocations
    }

    /// Decides what the events of a sync response ask for: room after room,
    /// and within a room event after event.
    pub fn collect(&self, response: &SyncResponse) -> (r: Vec<Invocation<V>>)
        ensures
            invocations_fit(
                self.registry(),
                self.store(),
                timeline_routes(self.registry(), self.store(), room_events(response.joined@)),
                r@,
            ),
    {
        let ghost f = router(self.registry(), self.store());
        let ghost g = |room: JoinedRoom| room.timeline@;
        let mut invocations: Vec<Invocation<V>> = Vec::new();
        let mut i: usize = 0;
        while i < response.joined.len()
            invariant
                i <= response.joined.len(),
                f == router(self.registry(), self.store()),
                g == |room: JoinedRoom| room.timeline@,
                invocations_fit(
                    self.registry(),
                    self.store(),
                    response.joined@.take(i as int).map_values(g).flatten().filter_map(f),
                    invocations@,
                ),
            decreases response.joined.len() - i,
        {
            let mut found = self.collect_timeline(&response.joined[i].timeline);
            proof {
                let before = response.joined@.take(i as int).map_values(g);
                let events = response.joined@[i as int].timeline@;
                assert(response.joined@.take(i + 1).map_values(g) == before.push(events));
                before.lemma_flatten_push(events);
                lemma_filter_map_concat(before.flatten(), events, f);
            }
            invocations.append(&mut found);
            i += 1;
        }
        assert(response.joined@.take(i as int) == response.joined@);
        invocations
    }

    /// Starts the loop: hands out the user name and the password for the one
    /// login.
    ///
    /// Returns `None`, and leaves the bot as it is, where the loop was started
    /// before.
    pub fn run<E>(&mut self) -> (r: Option<Request<E>>)
        ensures
            match r {
                Some(request) => {
                    &&& old(self).credentials() matches Some((username, password))
                    &&& request@ == RequestView::<E>::Login { username, password }
                    &&& final(self).phase() == Phase::Authenticating
                },
                None => {
                    &&& old(self).phase() != Phase::Unauthenticated
                    &&& final(self).phase() == old(self).phase()
                },
            },
            final(self).credentials() is None,
            final(self).registry() == old(self).registry(),
            final(self).store() == old(self).store(),
            final(self).connection() == old(self).connection(),
    {
        let mut stage = Stage::Authenticating;
        std::mem::swap(&mut stage, &mut self.stage);
        match stage {
            Stage::Unauthenticated(details) => Some(
                Request::Login { username: details.username, password: details.password },
            ),
            other => {
                self.stage = other;
                None
            },
        }
    }

    /// Whether the loop waits for `event`.
    pub fn expects<E>(&self, event: &Event<E>) -> (r: bool)
        ensures
            r == expects(self.phase(), *event),
    {
        match self.stage {
            Stage::Unauthenticated(_) => false,
            Stage::Authenticating => match event {
                Event::LoggedIn => true,
                Event::Failed(_) => true,
                _ => false,
            },
            Stage::InitialSyncing => match event {
                Event::Synced(_) => true,
                Event::Failed(_) => true,
                _ => false,
            },
            Stage::Polling => match event {
                Event::LoggedIn => false,
                _ => true,
            },
            Stage::Terminated => false,
        }
    }

    /// Takes one event and decides how the loop goes on.
    ///
    /// Returns `None`, and leaves the bot as it is, where the loop does not
    /// wait for the event. Handlers are invoked only for the events of a
    /// response that arrives while the loop polls.
    pub fn step<E>(&mut self, event: Event<E>) -> (r: Option<Step<E, V>>)
        ensures
            r is Some <==> expects(old(self).phase(), event),
            match r {
                Some(step) => {
                    &&& final(self).phase() == next_phase(event)
                    &&& step.request@ == next_request(event)
                    &&& invocations_fit(
                        old(self).registry(),
                        old(self).store(),
                        if old(self).phase() == Phase::Polling && event is Synced {
                            timeline_routes(
                                old(self).registry(),
                                old(self).store(),
                                room_events(event->Synced_0.joined@),
                            )
                        } else {
                            Seq::empty()
                        },
                        step.invocations@,
                    )
                },
                None => final(self).phase() == old(self).phase(),
            },
            final(self).credentials() == old(self).credentials(),
            final(self).registry() == old(self).registry(),
            final(self).store() == old(self).store(),
            final(self).connection() == old(self).connection(),
    {
        if !self.expects(&event) {
            return None;
        }
        match event {
            Event::LoggedIn => {
                self.stage = Stage::InitialSyncing;
                Some(
                    Step {
                        invocations: Vec::new(),
                        request: Request::Sync {
                            filter: SyncFilter::IgnoreAll,
                            since: None,
                            set_presence: false,
                        },
                    },
                )
            },
            Event::Synced(response) => {
                let invocations = match self.stage {
                    Stage::Polling => self.collect(&response),
                    _ => Vec::new(),
                };
                self.stage = Stage::Polling;
                Some(
                    Step {
                        invocations,
                        request: Request::Sync {
                            filter: SyncFilter::TimelineOnly,
                            since: Some(response.next_batch),
                            set_presence: true,
                        },
                    },
                )
            },
            Event::StreamEnded => {
                self.stage = Stage::Terminated;
                Some(Step { invocations: Vec::new(), request: Request::Stop(Ok(())) })
            },
            Event::Failed(error) => {
                self.stage = Stage::Terminated;
                Some(Step { invocations: Vec::new(), request: Request::Stop(Err(error)) })
            },
        }
    }
}

} // verus!
