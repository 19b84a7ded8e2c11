//! The Socket Mode session: when to connect, what to answer, and when to stop.

use crate::event::{
    delivery_of, envelope_of, receive_text, Delivery, DeliveryView, EnvelopeView, Received,
};
use crate::json::{is_object_text, json_object_text, json_parsed, text_view, JsonView};
use vstd::prelude::*;
use vstd::string::*;

verus! {

/// How long to wait before another attempt to connect, in seconds.
pub const RECONNECT_DELAY_SECS: u64 = 5;

/// What a session waits for.
#[derive(Clone, Copy, PartialEq, Eq, Structural)]
pub enum Phase {
    /// Whether a shutdown has been asked for.
    Starting,
    /// The address to connect to.
    Opening,
    /// The connection.
    Connecting,
    /// What the connection brings, or a shutdown.
    Listening,
    /// The end of a delay.
    Waiting,
    /// Nothing.
    Stopped,
}

/// What happens to a session.
pub enum SessionEvent {
    /// It was looked up whether a shutdown has been asked for.
    ShutdownFlag(bool),
    /// An address was asked for, and granted or not.
    Opened(Option<String>),
    /// A connection was tried, and made or not.
    Connected(bool),
    /// The connection brought a text.
    Text(String),
    /// The connection brought a ping.
    Ping(Vec<u8>),
    /// The connection brought something else.
    OtherFrame,
    /// The server closed the connection.
    Closed,
    /// The connection failed.
    ReadFailed,
    /// The connection has ended.
    Ended,
    /// A shutdown is asked for while the session listens.
    ShutdownSignal,
    /// A delay is over.
    Woke,
}

/// What a `SessionEvent` holds.
pub enum SessionEventView {
    ShutdownFlag(bool),
    Opened(Option<Seq<char>>),
    Connected(bool),
    Text(Seq<char>),
    Ping(Seq<u8>),
    OtherFrame,
    Closed,
    ReadFailed,
    Ended,
    ShutdownSignal,
    Woke,
}

impl View for SessionEvent {
    type V = SessionEventView;

    open spec fn view(&self) -> SessionEventView {
        match self {
            SessionEvent::ShutdownFlag(requested) => SessionEventView::ShutdownFlag(*requested),
            SessionEvent::Opened(url) => SessionEventView::Opened(text_view(*url)),
            SessionEvent::Connected(made) => SessionEventView::Connected(*made),
            SessionEvent::Text(text) => SessionEventView::Text(text@),
            SessionEvent::Ping(data) => SessionEventView::Ping(data@),
            SessionEvent::OtherFrame => SessionEventView::OtherFrame,
            SessionEvent::Closed => SessionEventView::Closed,
            SessionEvent::ReadFailed => SessionEventView::ReadFailed,
            SessionEvent::Ended => SessionEventView::Ended,
            SessionEvent::ShutdownSignal => SessionEventView::ShutdownSignal,
            SessionEvent::Woke => SessionEventView::Woke,
        }
    }
}

/// What a session asks to be done.
pub enum SessionAction {
    /// Look up whether a shutdown has been asked for.
    CheckShutdown,
    /// Ask for an address to connect to.
    AskForUrl,
    /// Connect to an address.
    Connect(String),
    /// Wait for what the connection brings, or for a shutdown.
    Listen,
    /// Send a text.
    SendText(String),
    /// Send a pong.
    SendPong(Vec<u8>),
    /// Close the connection.
    SendClose,
    /// Pass an event on.
    Deliver(Delivery),
    /// Let so many seconds pass.
    Sleep(u64),
    /// Be done.
    Finish,
}

/// What a `SessionAction` holds.
pub enum ActionView {
    CheckShutdown,
    AskForUrl,
    Connect(Seq<char>),
    Listen,
    SendText(Seq<char>),
    SendPong(Seq<u8>),
    SendClose,
    Deliver(DeliveryView),
    Sleep(u64),
    Finish,
}

impl View for SessionAction {
    type V = ActionView;

    open spec fn view(&self) -> ActionView {
        match self {
            SessionAction::CheckShutdown => ActionView::CheckShutdown,
            SessionAction::AskForUrl => ActionView::AskForUrl,
            SessionAction::Connect(url) => ActionView::Connect(url@),
            SessionAction::Listen => ActionView::Listen,
            SessionAction::SendText(text) => ActionView::SendText(text@),
            SessionAction::SendPong(data) => ActionView::SendPong(data@),
            SessionAction::SendClose => ActionView::SendClose,
            SessionAction::Deliver(delivery) => ActionView::Deliver(delivery@),
            SessionAction::Sleep(seconds) => ActionView::Sleep(*seconds),
            SessionAction::Finish => ActionView::Finish,
        }
    }
}

/// What a list of actions holds.
pub open spec fn actions_view(actions: Seq<SessionAction>) -> Seq<ActionView> {
    actions.map_values(|action: SessionAction| action@)
}

/// What to do for a text: send the acknowledgement where there is one, pass on
/// the event, and listen again.
pub open spec fn text_actions(
    acknowledgement: Option<Seq<char>>,
    delivery: DeliveryView,
) -> Seq<ActionView> {
    let rest = seq![ActionView::Deliver(delivery), ActionView::Listen];
    match acknowledgement {
        Some(text) => seq![ActionView::SendText(text)] + rest,
        None => rest,
    }
}

/// The acknowledgement of an envelope: the JSON object with its ID.
pub open spec fn acknowledgement_of(envelope: EnvelopeView) -> Option<Seq<char>> {
    match envelope.envelope_id {
        Some(id) => Some(json_object_text(seq![("envelope_id"@, id)])),
        None => None,
    }
}

/// What to do for a text that arrived: for an envelope, acknowledge it and pass
/// on its event; for what is not JSON, nothing.
pub open spec fn actions_on_text(text: Seq<char>) -> Seq<ActionView> {
    match json_parsed(text) {
        Some(value) => text_actions(
            acknowledgement_of(envelope_of(value)),
            delivery_of(envelope_of(value).event),
        ),
        None => text_actions(None, DeliveryView::Nothing),
    }
}

/// Whether an envelope with an ID is acknowledged first, with a text that reads
/// back as the object with that ID.
pub open spec fn acknowledges(event: SessionEventView, actions: Seq<SessionAction>) -> bool {
    event matches SessionEventView::Text(text) ==> json_parsed(text) matches Some(value)
        ==> envelope_of(value).envelope_id matches Some(id) ==> {
        &&& actions.len() > 0
        &&& actions[0] matches SessionAction::SendText(answer)
        &&& is_object_text(answer@, seq![("envelope_id"@, id)])
    }
}

/// The end of a connection, or of an attempt to make one: wait, to try again.
pub open spec fn retry() -> (Phase, Seq<ActionView>) {
    (Phase::Waiting, seq![ActionView::Sleep(RECONNECT_DELAY_SECS)])
}

/// What a session does when something happens: what it waits for next, and what
/// is to be done, in order. What it does not wait for changes nothing.
pub open spec fn session_step(phase: Phase, event: SessionEventView) -> (Phase, Seq<ActionView>) {
    match (phase, event) {
        (Phase::Starting, SessionEventView::ShutdownFlag(requested)) => if requested {
            (Phase::Stopped, seq![ActionView::Finish])
        } else {
            (Phase::Opening, seq![ActionView::AskForUrl])
        },
        (Phase::Opening, SessionEventView::Opened(url)) => match url {
            Some(url) => (Phase::Connecting, seq![ActionView::Connect(url)]),
            None => retry(),
        },
        (Phase::Connecting, SessionEventView::Connected(made)) => if made {
            (Phase::Listening, seq![ActionView::Listen])
        } else {
            retry()
        },
        (Phase::Listening, SessionEventView::Text(text)) => (
            Phase::Listening,
            actions_on_text(text),
        ),
        (Phase::Listening, SessionEventView::Ping(data)) => (
            Phase::Listening,
            seq![ActionView::SendPong(data), ActionView::Listen],
        ),
        (Phase::Listening, SessionEventView::OtherFrame) => (
            Phase::Listening,
            seq![ActionView::Listen],
        ),
        (Phase::Listening, SessionEventView::Closed) => retry(),
        (Phase::Listening, SessionEventView::ReadFailed) => retry(),
        (Phase::Listening, SessionEventView::Ended) => retry(),
        (Phase::Listening, SessionEventView::ShutdownSignal) => (
            Phase::Stopped,
            seq![ActionView::SendClose, ActionView::Finish],
        ),
        (Phase::Waiting, SessionEventView::Woke) => (
            Phase::Starting,
            seq![ActionView::CheckShutdown],
        ),
        _ => (phase, Seq::empty()),
    }
}

/// The list with one action.
fn one(action: SessionAction) -> (actions: Vec<SessionAction>)
    ensures
        actions_view(actions@) == seq![action@],
{
    let mut actions: Vec<SessionAction> = Vec::new();
    actions.push(action);
    assert(actions_view(actions@) =~= seq![action@]);
    actions
}

/// The list with two actions.
fn two(first: SessionAction, second: SessionAction) -> (actions: Vec<SessionAction>)
    ensures
        actions_view(actions@) == seq![first@, second@],
{
    let mut actions = one(first);
    let ghost before = actions@;
    actions.push(second);
    assert(actions_view(actions@) =~= actions_view(before).push(second@));
    assert(actions_view(actions@) =~= seq![first@, second@]);
    actions
}

/// What to do for a text, once it is known what to do with it.
pub fn on_received(received: Received) -> (actions: Vec<SessionAction>)
    ensures
        actions_view(actions@) == text_actions(
            text_view(received.acknowledgement),
            received.delivery@,
        ),
        received.acknowledgement matches Some(text) ==> {
            &&& actions@.len() > 0
            &&& actions@[0] matches SessionAction::SendText(answer)
            &&& answer@ == text@
        },
{
    match received.acknowledgement {
        Some(text) => {
            let ghost acknowledgement = text@;
            let mut actions = one(SessionAction::SendText(text));
            let ghost before = actions@;
            actions.push(SessionAction::Deliver(received.delivery));
            actions.push(SessionAction::Listen);
            assert(actions_view(actions@) =~= actions_view(before).push(
                ActionView::Deliver(received.delivery@),
            ).push(ActionView::Listen));
            assert(actions_view(actions@) =~= text_actions(
                Some(acknowledgement),
                received.delivery@,
            ));
            assert(actions@[0]@ == actions_view(actions@)[0]);
            actions
        },
        None => two(SessionAction::Deliver(received.delivery), SessionAction::Listen),
    }
}

/// The end of a connection, or of an attempt to make one.
fn try_again() -> (next: (Phase, Vec<SessionAction>))
    ensures
        (next.0, actions_view(next.1@)) == retry(),
{
    (Phase::Waiting, one(SessionAction::Sleep(RECONNECT_DELAY_SECS)))
}

/// How a session begins.
pub fn start() -> (next: (Phase, Vec<SessionAction>))
    ensures
        next.0 == Phase::Starting,
        actions_view(next.1@) == seq![ActionView::CheckShutdown],
{
    (Phase::Starting, one(SessionAction::CheckShutdown))
}

/// What a session does when something happens. The acknowledgement of an
/// envelope can be read back.
pub fn step(phase: Phase, event: SessionEvent) -> (next: (Phase, Vec<SessionAction>))
    ensures
        (next.0, actions_view(next.1@)) == session_step(phase, event@),
        phase == Phase::Listening ==> acknowledges(event@, next.1@),
{
    match (phase, event) {
        (Phase::Starting, SessionEvent::ShutdownFlag(requested)) => if requested {
            (Phase::Stopped, one(SessionAction::Finish))
        } else {
            (Phase::Opening, one(SessionAction::AskForUrl))
        },
        (Phase::Opening, SessionEvent::Opened(url)) => match url {
            Some(url) => (Phase::Connecting, one(SessionAction::Connect(url))),
            None => try_again(),
        },
        (Phase::Connecting, SessionEvent::Connected(made)) => if made {
            (Phase::Listening, one(SessionAction::Listen))
        } else {
            try_again()
        },
        (Phase::Listening, SessionEvent::Text(text)) => (
            Phase::Listening,
            on_received(receive_text(text.as_str())),
        ),
        (Phase::Listening, SessionEvent::Ping(data)) => (
            Phase::Listening,
            two(SessionAction::SendPong(data), SessionAction::Listen),
        ),
        (Phase::Listening, SessionEvent::OtherFrame) => (
            Phase::Listening,
            one(SessionAction::Listen),
        ),
        (Phase::Listening, SessionEvent::Closed) => try_again(),
        (Phase::Listening, SessionEvent::ReadFailed) => try_again(),
        (Phase::Listening, SessionEvent::Ended) => try_again(),
        (Phase::Listening, SessionEvent::ShutdownSignal) => (
            Phase::Stopped,
            two(SessionAction::SendClose, SessionAction::Finish),
        ),
        (Phase::Waiting, SessionEvent::Woke) => (
            Phase::Starting,
            one(SessionAction::CheckShutdown),
        ),
        (phase, _) => {
            let actions: Vec<SessionAction> = Vec::new();
            assert(actions_view(actions@) =~= Seq::empty());
            (phase, actions)
        },
    }
}

/// Whether something that happens asks for a shutdown.
pub open spec fn asks_for_shutdown(event: SessionEventView) -> bool {
    event == SessionEventView::ShutdownFlag(true) || event == SessionEventView::ShutdownSignal
}

/// What a session waits for once all this has happened.
pub open spec fn phase_after(phase: Phase, events: Seq<SessionEventView>) -> Phase
    decreases events.len(),
{
    if events.len() == 0 {
        phase
    } else {
        session_step(phase_after(phase, events.drop_last()), events.last()).0
    }
}

/// Whether something that happens is what a session waits for.
pub open spec fn awaits(phase: Phase, event: SessionEventView) -> bool {
    match phase {
        Phase::Starting => event is ShutdownFlag,
        Phase::Opening => event is Opened,
        Phase::Connecting => event is Connected,
        Phase::Listening => {
            ||| event is Text
            ||| event is Ping
            ||| event is OtherFrame
            ||| event is Closed
            ||| event is ReadFailed
            ||| event is Ended
            ||| event is ShutdownSignal
        },
        Phase::Waiting => event is Woke,
        Phase::Stopped => false,
    }
}

/// Whether an action brings what a session waits for, or ends one that has
/// stopped.
pub open spec fn brings_on(phase: Phase, action: ActionView) -> bool {
    match phase {
        Phase::Starting => action is CheckShutdown,
        Phase::Opening => action is AskForUrl,
        Phase::Connecting => action is Connect,
        Phase::Listening => action is Listen,
        Phase::Waiting => action is Sleep,
        Phase::Stopped => action is Finish,
    }
}

/// A session never gets stuck: when something happens that it waits for, the last
/// action brings what it waits for next, and no action before that brings
/// anything. The last action is to be done exactly where the session stops.
pub proof fn law_never_stuck(phase: Phase, event: SessionEventView)
    requires
        awaits(phase, event),
    ensures
        ({
            let (next, actions) = session_step(phase, event);
            &&& actions.len() > 0
            &&& brings_on(next, actions.last())
            &&& actions.last() == ActionView::Finish <==> next == Phase::Stopped
            &&& forall|i: int, other: Phase|
                0 <= i < actions.len() - 1 ==> !#[trigger] brings_on(other, actions[i])
        }),
{
}

/// What a session does not wait for changes nothing and asks for nothing.
pub proof fn law_only_the_awaited_counts(phase: Phase, event: SessionEventView)
    requires
        !awaits(phase, event),
    ensures
        session_step(phase, event) == (phase, Seq::<ActionView>::empty()),
{
}

/// A session runs until it is asked to shut down: whatever else happens, it
/// does not stop.
pub proof fn law_runs_until_shutdown(phase: Phase, events: Seq<SessionEventView>)
    requires
        phase != Phase::Stopped,
        forall|i: int| 0 <= i < events.len() ==> !asks_for_shutdown(#[trigger] events[i]),
    ensures
        phase_after(phase, events) != Phase::Stopped,
    decreases events.len(),
{
    if events.len() > 0 {
        let before = events.drop_last();
        assert forall|i: int| 0 <= i < before.len() implies !asks_for_shutdown(
            #[trigger] before[i],
        ) by {
            assert(before[i] == events[i]);
        }
        law_runs_until_shutdown(phase, before);
        assert(!asks_for_shutdown(events[events.len() - 1]));
    }
}

/// A session that has stopped does nothing more.
pub proof fn law_shutdown_is_final(events: Seq<SessionEventView>, event: SessionEventView)
    ensures
        phase_after(Phase::Stopped, events) == Phase::Stopped,
        session_step(Phase::Stopped, event) == (Phase::Stopped, Seq::<ActionView>::empty()),
    decreases events.len(),
{
    if events.len() > 0 {
        law_shutdown_is_final(events.drop_last(), event);
    }
}

/// Whether a session waits for something that asks for a shutdown.
pub open spec fn heeds_shutdown(phase: Phase, event: SessionEventView) -> bool {
    ||| phase == Phase::Starting && event == SessionEventView::ShutdownFlag(true)
    ||| phase == Phase::Listening && event == SessionEventView::ShutdownSignal
}

/// A session that is asked to shut down stops and is done; while it listens, it
/// closes the connection first.
pub proof fn law_shutdown_stops(phase: Phase, event: SessionEventView)
    requires
        heeds_shutdown(phase, event),
    ensures
        session_step(phase, event).0 == Phase::Stopped,
        session_step(phase, event).1.last() == ActionView::Finish,
        phase == Phase::Listening ==> session_step(phase, event).1.first()
            == ActionView::SendClose,
{
}

/// Whether something that happens ends a connection, or an attempt to make one.
pub open spec fn is_disconnect(phase: Phase, event: SessionEventView) -> bool {
    match phase {
        Phase::Opening => event == SessionEventView::Opened(None),
        Phase::Connecting => event == SessionEventView::Connected(false),
        Phase::Listening => {
            ||| event == SessionEventView::Closed
            ||| event == SessionEventView::ReadFailed
            ||| event == SessionEventView::Ended
        },
        _ => false,
    }
}

/// A session reconnects on its own: after a disconnect it lets a while pass, and
/// unless a shutdown has been asked for meanwhile, it asks for an address again.
pub proof fn law_reconnects(phase: Phase, event: SessionEventView)
    requires
        is_disconnect(phase, event),
    ensures
        session_step(phase, event) == (
            Phase::Waiting,
            seq![ActionView::Sleep(RECONNECT_DELAY_SECS)],
        ),
        phase_after(
            phase,
            seq![event, SessionEventView::Woke, SessionEventView::ShutdownFlag(false)],
        ) == Phase::Opening,
        session_step(Phase::Starting, SessionEventView::ShutdownFlag(false)).1 == seq![
            ActionView::AskForUrl,
        ],
{
    let events = seq![event, SessionEventView::Woke, SessionEventView::ShutdownFlag(false)];
    assert(events.drop_last() =~= seq![event, SessionEventView::Woke]);
    assert(events.drop_last().drop_last() =~= seq![event]);
    assert(events.drop_last().drop_last().drop_last() =~= Seq::empty());
    reveal_with_fuel(phase_after, 4);
}

/// An envelope with an ID is acknowledged before its event is passed on,
/// whatever its type is, and the session goes on listening.
pub proof fn law_envelopes_are_acknowledged(text: Seq<char>, value: JsonView)
    requires
        json_parsed(text) == Some(value),
        envelope_of(value).envelope_id is Some,
    ensures
        session_step(Phase::Listening, SessionEventView::Text(text)) == (
            Phase::Listening,
            seq![
                ActionView::SendText(
                    json_object_text(seq![("envelope_id"@, envelope_of(value).envelope_id->0)]),
                ),
                ActionView::Deliver(delivery_of(envelope_of(value).event)),
                ActionView::Listen,
            ],
        ),
{
    assert(session_step(Phase::Listening, SessionEventView::Text(text)).1 =~= seq![
        ActionView::SendText(
            json_object_text(seq![("envelope_id"@, envelope_of(value).envelope_id->0)]),
        ),
        ActionView::Deliver(delivery_of(envelope_of(value).event)),
        ActionView::Listen,
    ]);
}

/// A ping is answered with a pong that brings the same data.
pub proof fn law_pings_are_answered(data: Seq<u8>)
    ensures
        session_step(Phase::Listening, SessionEventView::Ping(data)) == (
            Phase::Listening,
            seq![ActionView::SendPong(data), ActionView::Listen],
        ),
{
}

/// A session looks for a shutdown before it connects, each time: it asks for an
/// address only once it knows that none has been asked for.
pub proof fn law_shutdown_is_checked_first(phase: Phase, event: SessionEventView)
    requires
        session_step(phase, event).1.contains(ActionView::AskForUrl),
    ensures
        phase == Phase::Starting,
        event == SessionEventView::ShutdownFlag(false),
{
}

/// A granted address is connected to, whatever it is, and it is that address.
pub proof fn law_granted_addresses_are_connected_to(url: Seq<char>)
    ensures
        session_step(Phase::Opening, SessionEventView::Opened(Some(url))) == (
            Phase::Connecting,
            seq![ActionView::Connect(url)],
        ),
{
}

/// A session connects only to an address that it was granted just before.
pub proof fn law_only_granted_addresses_are_connected_to(
    phase: Phase,
    event: SessionEventView,
    url: Seq<char>,
)
    requires
        session_step(phase, event).1.contains(ActionView::Connect(url)),
    ensures
        phase == Phase::Opening,
        event == SessionEventView::Opened(Some(url)),
{
}

/// Unless a shutdown has been asked for, a session asks for an address, once it
/// has begun and after each delay; and once it is connected, it listens.
pub proof fn law_sessions_go_on(phase: Phase)
    ensures
        session_step(Phase::Waiting, SessionEventView::Woke) == (
            Phase::Starting,
            seq![ActionView::CheckShutdown],
        ),
        session_step(Phase::Starting, SessionEventView::ShutdownFlag(false)) == (
            Phase::Opening,
            seq![ActionView::AskForUrl],
        ),
        session_step(Phase::Connecting, SessionEventView::Connected(true)) == (
            Phase::Listening,
            seq![ActionView::Listen],
        ),
        session_step(Phase::Listening, SessionEventView::OtherFrame) == (
            Phase::Listening,
            seq![ActionView::Listen],
        ),
        phase != Phase::Stopped ==> exists|event: SessionEventView|
            session_step(phase, event).0 != phase,
{
    assert(session_step(Phase::Waiting, SessionEventView::Woke).0 != Phase::Waiting);
    assert(session_step(Phase::Starting, SessionEventView::ShutdownFlag(false)).0
        != Phase::Starting);
    assert(session_step(Phase::Opening, SessionEventView::Opened(None)).0 != Phase::Opening);
    assert(session_step(Phase::Connecting, SessionEventView::Connected(true)).0
        != Phase::Connecting);
    assert(session_step(Phase::Listening, SessionEventView::Closed).0 != Phase::Listening);
}

/// A session that stops asks for nothing but its end, and to close a connection
/// that it has.
pub proof fn law_stopping_asks_for_nothing_else(phase: Phase, event: SessionEventView)
    requires
        phase != Phase::Stopped,
        session_step(phase, event).0 == Phase::Stopped,
    ensures
        phase == Phase::Starting && event == SessionEventView::ShutdownFlag(true) || phase
            == Phase::Listening && event == SessionEventView::ShutdownSignal,
        phase == Phase::Starting ==> session_step(phase, event).1 == seq![ActionView::Finish],
        phase == Phase::Listening ==> session_step(phase, event).1 == seq![
            ActionView::SendClose,
            ActionView::Finish,
        ],
{
}

/// Where no address is granted, where no connection is made, and where one is
/// closed, fails or ends, five seconds pass before the next attempt, and nothing
/// else is done.
pub proof fn law_five_seconds_pass(phase: Phase, event: SessionEventView)
    requires
        ({
            ||| phase == Phase::Opening && event == SessionEventView::Opened(None)
            ||| phase == Phase::Connecting && event == SessionEventView::Connected(false)
            ||| phase == Phase::Listening && event == SessionEventView::Closed
            ||| phase == Phase::Listening && event == SessionEventView::ReadFailed
            ||| phase == Phase::Listening && event == SessionEventView::Ended
        }),
    ensures
        session_step(phase, event) == (Phase::Waiting, seq![ActionView::Sleep(5)]),
{
}

/// A session sleeps for no other reason, and never for another while.
pub proof fn law_sessions_sleep_after_a_disconnect_only(
    phase: Phase,
    event: SessionEventView,
    seconds: u64,
)
    requires
        session_step(phase, event).1.contains(ActionView::Sleep(seconds)),
    ensures
        seconds == 5,
        phase == Phase::Opening ==> event == SessionEventView::Opened(None),
        phase == Phase::Connecting ==> event == SessionEventView::Connected(false),
        phase == Phase::Listening ==> event == SessionEventView::Closed || event
            == SessionEventView::ReadFailed || event == SessionEventView::Ended,
        phase == Phase::Opening || phase == Phase::Connecting || phase == Phase::Listening,
{
}

/// What each text asks for, whatever it holds: its event is delivered and the
/// session listens on; before that it is answered exactly where it is an envelope
/// with an ID, once.
pub proof fn law_texts_are_delivered(text: Seq<char>)
    ensures
        ({
            let (next, actions) = session_step(Phase::Listening, SessionEventView::Text(text));
            let answers = json_parsed(text) matches Some(value) && value.find("envelope_id"@)
                matches Some(JsonView::Text(_));
            &&& next == Phase::Listening
            &&& actions.len() == if answers { 3int } else { 2int }
            &&& actions.last() == ActionView::Listen
            &&& actions[0] is SendText <==> answers
            &&& actions[actions.len() - 2] == ActionView::Deliver(
                match json_parsed(text) {
                    Some(value) => delivery_of(envelope_of(value).event),
                    None => DeliveryView::Nothing,
                },
            )
        }),
{
}

/// The answer to an envelope is told by its ID alone.
pub proof fn law_answers_are_by_id(text: Seq<char>, value: JsonView, id: Seq<char>)
    requires
        json_parsed(text) == Some(value),
        value.find("envelope_id"@) == Some(JsonView::Text(id)),
    ensures
        session_step(Phase::Listening, SessionEventView::Text(text)).1[0] == ActionView::SendText(
            json_object_text(seq![("envelope_id"@, id)]),
        ),
{
}

/// What to do with a text that was received is to send the acknowledgement where
/// there is one, then to pass on the delivery, then to listen.
pub proof fn law_acknowledgements_come_first(
    acknowledgement: Option<Seq<char>>,
    delivery: DeliveryView,
)
    ensures
        text_actions(acknowledgement, delivery).len() == if acknowledgement is Some {
            3int
        } else {
            2int
        },
        text_actions(acknowledgement, delivery).last() == ActionView::Listen,
        text_actions(acknowledgement, delivery).drop_last().last() == ActionView::Deliver(delivery),
        acknowledgement matches Some(text) ==> text_actions(acknowledgement, delivery).first()
            == ActionView::SendText(text),
{
}

/// What is seen of something that happens is what it is, and all that it holds.
pub proof fn law_session_events_are_seen(text: String, data: Vec<u8>, flag: bool)
    ensures
        SessionEvent::ShutdownFlag(flag)@ == SessionEventView::ShutdownFlag(flag),
        SessionEvent::Opened(Some(text))@ == SessionEventView::Opened(Some(text@)),
        SessionEvent::Opened(None)@ == SessionEventView::Opened(None),
        SessionEvent::Connected(flag)@ == SessionEventView::Connected(flag),
        SessionEvent::Text(text)@ == SessionEventView::Text(text@),
        SessionEvent::Ping(data)@ == SessionEventView::Ping(data@),
        SessionEvent::OtherFrame@ == SessionEventView::OtherFrame,
        SessionEvent::Closed@ == SessionEventView::Closed,
        SessionEvent::ReadFailed@ == SessionEventView::ReadFailed,
        SessionEvent::Ended@ == SessionEventView::Ended,
        SessionEvent::ShutdownSignal@ == SessionEventView::ShutdownSignal,
        SessionEvent::Woke@ == SessionEventView::Woke,
{
}

/// What is seen of an action is what it is, and all that it holds.
pub proof fn law_actions_are_seen(text: String, data: Vec<u8>, delivery: Delivery, seconds: u64)
    ensures
        SessionAction::CheckShutdown@ == ActionView::CheckShutdown,
        SessionAction::AskForUrl@ == ActionView::AskForUrl,
        SessionAction::Connect(text)@ == ActionView::Connect(text@),
        SessionAction::Listen@ == ActionView::Listen,
        SessionAction::SendText(text)@ == ActionView::SendText(text@),
        SessionAction::SendPong(data)@ == ActionView::SendPong(data@),
        SessionAction::SendClose@ == ActionView::SendClose,
        SessionAction::Deliver(delivery)@ == ActionView::Deliver(delivery@),
        SessionAction::Sleep(seconds)@ == ActionView::Sleep(seconds),
        SessionAction::Finish@ == ActionView::Finish,
{
}

/// Each action of a list is seen, in order.
pub proof fn law_lists_of_actions_are_seen(actions: Seq<SessionAction>)
    ensures
        actions_view(actions).len() == actions.len(),
        forall|i: int|
            0 <= i < actions.len() ==> #[trigger] actions_view(actions)[i] == actions[i]@,
{
}

} // verus!
