use vstd::prelude::*;

use crate::link::{permalink, permalink_of};
use url::ParseError;

verus! {

/// Where a relay task stands.
#[derive(Clone, Copy, Debug, PartialEq, Eq, Structural)]
pub enum RelayPhase {
    /// The antenna subscription is being opened.
    Subscribing,
    /// Waiting for the next note of the antenna.
    Awaiting,
    /// A link is being sent to the webhook.
    Delivering,
    /// The stream ended; the task is done.
    Completed,
    /// The task stopped on an error.
    Failed,
}

/// What the outside world reports to a relay task. Error causes are carried as text.
#[derive(Debug)]
pub enum RelayEvent {
    /// The antenna subscription is open.
    Subscribed,
    /// The antenna subscription could not be opened.
    SubscribeFailed(String),
    /// A note arrived; its id as text.
    NoteArrived(String),
    /// The stream of notes ended.
    StreamEnded,
    /// The stream of notes failed.
    StreamFailed(String),
    /// The last link was delivered.
    Delivered,
    /// The last link could not be delivered.
    DeliveryFailed(String),
}

/// Why a relay task failed.
#[derive(Debug)]
pub enum RelayError {
    Subscription(String),
    Transport(String),
    UrlConstruction(ParseError),
    Delivery(String),
}

/// What a relay task asks the outside world to do next.
#[derive(Debug)]
pub enum RelayAction {
    /// Pull the next note from the subscription.
    PullNext,
    /// Send this text as one webhook message.
    Deliver(String),
    /// Stop: the task is done.
    Complete,
    /// Stop: the task failed.
    Fail(RelayError),
}

/// An event, with its text as characters.
pub enum EventModel {
    Subscribed,
    SubscribeFailed(Seq<char>),
    NoteArrived(Seq<char>),
    StreamEnded,
    StreamFailed(Seq<char>),
    Delivered,
    DeliveryFailed(Seq<char>),
}

/// An action, with its text as characters.
pub enum ActionModel {
    PullNext,
    Deliver(Seq<char>),
    Complete,
    FailSubscription(Seq<char>),
    FailTransport(Seq<char>),
    FailUrlConstruction,
    FailDelivery(Seq<char>),
}

impl View for RelayEvent {
    type V = EventModel;

    open spec fn view(&self) -> EventModel {
        match self {
            RelayEvent::Subscribed => EventModel::Subscribed,
            RelayEvent::SubscribeFailed(e) => EventModel::SubscribeFailed(e@),
            RelayEvent::NoteArrived(n) => EventModel::NoteArrived(n@),
            RelayEvent::StreamEnded => EventModel::StreamEnded,
            RelayEvent::StreamFailed(e) => EventModel::StreamFailed(e@),
            RelayEvent::Delivered => EventModel::Delivered,
            RelayEvent::DeliveryFailed(e) => EventModel::DeliveryFailed(e@),
        }
    }
}

impl View for RelayAction {
    type V = ActionModel;

    open spec fn view(&self) -> ActionModel {
        match self {
            RelayAction::PullNext => ActionModel::PullNext,
            RelayAction::Deliver(t) => ActionModel::Deliver(t@),
            RelayAction::Complete => ActionModel::Complete,
            RelayAction::Fail(RelayError::Subscription(e)) => ActionModel::FailSubscription(e@),
            RelayAction::Fail(RelayError::Transport(e)) => ActionModel::FailTransport(e@),
            RelayAction::Fail(RelayError::UrlConstruction(_)) => ActionModel::FailUrlConstruction,
            RelayAction::Fail(RelayError::Delivery(e)) => ActionModel::FailDelivery(e@),
        }
    }
}

/// Whether a task in `phase` waits for `ev`: only the outcome of what it last asked for.
pub open spec fn relay_accepts(phase: RelayPhase, ev: EventModel) -> bool {
    match phase {
        RelayPhase::Subscribing => ev is Subscribed || ev is SubscribeFailed,
        RelayPhase::Awaiting => ev is NoteArrived || ev is StreamEnded || ev is StreamFailed,
        RelayPhase::Delivering => ev is Delivered || ev is DeliveryFailed,
        RelayPhase::Completed | RelayPhase::Failed => false,
    }
}

/// One step of a relay task for the service at `base`: its next phase and action.
pub open spec fn relay_next(base: Seq<char>, phase: RelayPhase, ev: EventModel) -> (
    RelayPhase,
    ActionModel,
) {
    match ev {
        EventModel::Subscribed => (RelayPhase::Awaiting, ActionModel::PullNext),
        EventModel::SubscribeFailed(e) => (RelayPhase::Failed, ActionModel::FailSubscription(e)),
        EventModel::NoteArrived(n) => match permalink_of(base, n) {
            Some(l) => (RelayPhase::Delivering, ActionModel::Deliver(l)),
            None => (RelayPhase::Failed, ActionModel::FailUrlConstruction),
        },
        EventModel::StreamEnded => (RelayPhase::Completed, ActionModel::Complete),
        EventModel::StreamFailed(e) => (RelayPhase::Failed, ActionModel::FailTransport(e)),
        EventModel::Delivered => (RelayPhase::Awaiting, ActionModel::PullNext),
        EventModel::DeliveryFailed(e) => (RelayPhase::Failed, ActionModel::FailDelivery(e)),
    }
}

/// A relay task fed `evs` in order from `phase`: the phase it ends in and the actions it
/// asked for. An event that the task does not wait for is passed over.
pub open spec fn relay_run(base: Seq<char>, phase: RelayPhase, evs: Seq<EventModel>) -> (
    RelayPhase,
    Seq<ActionModel>,
)
    decreases evs.len(),
{
    if evs.len() == 0 {
        (phase, Seq::empty())
    } else {
        let (p, acts) = relay_run(base, phase, evs.drop_last());
        if relay_accepts(p, evs.last()) {
            let (q, a) = relay_next(base, p, evs.last());
            (q, acts.push(a))
        } else {
            (p, acts)
        }
    }
}

/// The relay of one antenna to one webhook, as a machine that takes the outcome of each
/// outside operation and names the next one.
pub struct RelayTask {
    base_url: String,
    phase: RelayPhase,
}

impl RelayTask {
    pub closed spec fn base_spec(&self) -> Seq<char> {
        self.base_url@
    }

    pub closed spec fn phase_spec(&self) -> RelayPhase {
        self.phase
    }

    /// A task for the service at `service_url`; it first opens the antenna subscription.
    pub fn new(service_url: String) -> (r: RelayTask)
        ensures
            r.base_spec() == service_url@,
            r.phase_spec() == RelayPhase::Subscribing,
    {
        RelayTask { base_url: service_url, phase: RelayPhase::Subscribing }
    }

    pub fn phase(&self) -> (r: RelayPhase)
        ensures
            r == self.phase_spec(),
    {
        self.phase
    }

    /// Whether the task waits for `ev`.
    pub fn accepts(&self, ev: &RelayEvent) -> (r: bool)
        ensures
            r == relay_accepts(self.phase_spec(), ev@),
    {
        match self.phase {
            RelayPhase::Subscribing => matches!(ev, RelayEvent::Subscribed | RelayEvent::SubscribeFailed(_)),
            RelayPhase::Awaiting => matches!(
                ev,
                RelayEvent::NoteArrived(_) | RelayEvent::StreamEnded | RelayEvent::StreamFailed(_)
            ),
            RelayPhase::Delivering => matches!(ev, RelayEvent::Delivered | RelayEvent::DeliveryFailed(_)),
            RelayPhase::Completed | RelayPhase::Failed => false,
        }
    }

    /// Takes the outcome `ev` of what the task last asked for and names what comes next.
    pub fn step(&mut self, ev: RelayEvent) -> (r: RelayAction)
        requires
            relay_accepts(old(self).phase_spec(), ev@),
        ensures
            final(self).base_spec() == old(self).base_spec(),
            (final(self).phase_spec(), r@) == relay_next(old(self).base_spec(), old(self).phase_spec(), ev@),
    {
        match ev {
            RelayEvent::Subscribed | RelayEvent::Delivered => {
                self.phase = RelayPhase::Awaiting;
                RelayAction::PullNext
            },
            RelayEvent::SubscribeFailed(e) => {
                self.phase = RelayPhase::Failed;
                RelayAction::Fail(RelayError::Subscription(e))
            },
            RelayEvent::NoteArrived(n) => match permalink(self.base_url.as_str(), n.as_str()) {
                Ok(link) => {
                    self.phase = RelayPhase::Delivering;
                    RelayAction::Deliver(link)
                },
                Err(e) => {
                    self.phase = RelayPhase::Failed;
                    RelayAction::Fail(RelayError::UrlConstruction(e))
                },
            },
            RelayEvent::StreamEnded => {
                self.phase = RelayPhase::Completed;
                RelayAction::Complete
            },
            RelayEvent::StreamFailed(e) => {
                self.phase = RelayPhase::Failed;
                RelayAction::Fail(RelayError::Transport(e))
            },
            RelayEvent::DeliveryFailed(e) => {
                self.phase = RelayPhase::Failed;
                RelayAction::Fail(RelayError::Delivery(e))
            },
        }
    }
}

/// The events of notes `ids` arriving one by one, each delivered before the next arrives.
pub open spec fn note_events(ids: Seq<Seq<char>>) -> Seq<EventModel>
    decreases ids.len(),
{
    if ids.len() == 0 {
        Seq::empty()
    } else {
        note_events(ids.drop_last()).push(EventModel::NoteArrived(ids.last())).push(
            EventModel::Delivered,
        )
    }
}

/// For each of the notes `ids` in turn: deliver its link, then pull the next note.
pub open spec fn relayed_actions(base: Seq<char>, ids: Seq<Seq<char>>) -> Seq<ActionModel>
    decreases ids.len(),
{
    if ids.len() == 0 {
        Seq::empty()
    } else {
        relayed_actions(base, ids.drop_last()).push(
            ActionModel::Deliver(permalink_of(base, ids.last())->Some_0),
        ).push(ActionModel::PullNext)
    }
}

/// A relay task that receives notes in order delivers exactly one link per note, in the
/// order the notes came, and pulls the next note only after the last delivery completed.
pub proof fn lemma_relay_delivers_in_order(base: Seq<char>, ids: Seq<Seq<char>>)
    requires
        forall|i: int| 0 <= i < ids.len() ==> permalink_of(base, #[trigger] ids[i]) is Some,
    ensures
        relay_run(base, RelayPhase::Subscribing, seq![EventModel::Subscribed] + note_events(ids))
            == (RelayPhase::Awaiting, seq![ActionModel::PullNext] + relayed_actions(base, ids)),
    decreases ids.len(),
{
    let evs = seq![EventModel::Subscribed] + note_events(ids);
    if ids.len() == 0 {
        assert(evs =~= seq![EventModel::Subscribed]);
        assert(evs.last() == EventModel::Subscribed);
        assert(evs.drop_last() =~= Seq::<EventModel>::empty());
        assert(relay_run(base, RelayPhase::Subscribing, Seq::<EventModel>::empty()) == (
            RelayPhase::Subscribing,
            Seq::<ActionModel>::empty(),
        ));
        assert(Seq::<ActionModel>::empty().push(ActionModel::PullNext) =~= seq![ActionModel::PullNext]);
        assert(seq![ActionModel::PullNext] + relayed_actions(base, ids) =~= seq![ActionModel::PullNext]);
    } else {
        let rest = ids.drop_last();
        assert forall|i: int| 0 <= i < rest.len() implies permalink_of(base, #[trigger] rest[i]) is Some by {
            assert(rest[i] == ids[i]);
        }
        lemma_relay_delivers_in_order(base, rest);
        let prev = seq![EventModel::Subscribed] + note_events(rest);
        assert(evs.drop_last() =~= prev.push(EventModel::NoteArrived(ids.last())));
        assert(evs.drop_last().drop_last() =~= prev);
        assert(permalink_of(base, ids[ids.len() - 1]) is Some);
        let l = permalink_of(base, ids.last())->Some_0;
        let acts = seq![ActionModel::PullNext] + relayed_actions(base, rest);
        assert(evs.drop_last().last() == EventModel::NoteArrived(ids.last()));
        assert(relay_run(base, RelayPhase::Subscribing, evs.drop_last()) == (
            RelayPhase::Delivering,
            acts.push(ActionModel::Deliver(l)),
        ));
        assert(evs.last() == EventModel::Delivered);
        assert(seq![ActionModel::PullNext] + relayed_actions(base, ids) =~= acts.push(
            ActionModel::Deliver(l),
        ).push(ActionModel::PullNext));
    }
}

/// Once a task has stopped, further events change nothing: no action follows.
pub proof fn lemma_relay_stopped_stays(
    base: Seq<char>,
    phase: RelayPhase,
    evs: Seq<EventModel>,
    more: Seq<EventModel>,
)
    requires
        relay_run(base, phase, evs).0 == RelayPhase::Failed || relay_run(base, phase, evs).0
            == RelayPhase::Completed,
    ensures
        relay_run(base, phase, evs + more) == relay_run(base, phase, evs),
    decreases more.len(),
{
    if more.len() == 0 {
        assert(evs + more =~= evs);
    } else {
        lemma_relay_stopped_stays(base, phase, evs, more.drop_last());
        assert((evs + more).drop_last() =~= evs + more.drop_last());
    }
}

/// When the stream fails after one note was delivered, the task made exactly that one
/// delivery, stops reporting the transport failure, and acts on no later event.
pub proof fn lemma_relay_stops_on_stream_failure(
    base: Seq<char>,
    first: Seq<char>,
    cause: Seq<char>,
    later: Seq<EventModel>,
)
    requires
        permalink_of(base, first) is Some,
    ensures
        relay_run(
            base,
            RelayPhase::Subscribing,
            seq![
                EventModel::Subscribed,
                EventModel::NoteArrived(first),
                EventModel::Delivered,
                EventModel::StreamFailed(cause),
            ] + later,
        ) == (
            RelayPhase::Failed,
            seq![
                ActionModel::PullNext,
                ActionModel::Deliver(permalink_of(base, first)->Some_0),
                ActionModel::PullNext,
                ActionModel::FailTransport(cause),
            ],
        ),
{
    let evs = seq![
        EventModel::Subscribed,
        EventModel::NoteArrived(first),
        EventModel::Delivered,
        EventModel::StreamFailed(cause),
    ];
    let e1 = seq![EventModel::Subscribed];
    let e2 = e1.push(EventModel::NoteArrived(first));
    let e3 = e2.push(EventModel::Delivered);
    assert(evs =~= e3.push(EventModel::StreamFailed(cause)));
    assert(e1.drop_last() =~= Seq::<EventModel>::empty());
    assert(e2.drop_last() =~= e1);
    assert(e3.drop_last() =~= e2);
    assert(evs.drop_last() =~= e3);
    let l = permalink_of(base, first)->Some_0;
    let a1 = seq![ActionModel::PullNext];
    assert(relay_run(base, RelayPhase::Subscribing, Seq::<EventModel>::empty()) == (
        RelayPhase::Subscribing,
        Seq::<ActionModel>::empty(),
    ));
    assert(Seq::<ActionModel>::empty().push(ActionModel::PullNext) =~= a1);
    assert(relay_run(base, RelayPhase::Subscribing, e1) == (RelayPhase::Awaiting, a1));
    assert(relay_run(base, RelayPhase::Subscribing, e2) == (
        RelayPhase::Delivering,
        a1.push(ActionModel::Deliver(l)),
    ));
    assert(relay_run(base, RelayPhase::Subscribing, e3) == (
        RelayPhase::Awaiting,
        a1.push(ActionModel::Deliver(l)).push(ActionModel::PullNext),
    ));
    assert(relay_run(base, RelayPhase::Subscribing, evs).1 =~= seq![
        ActionModel::PullNext,
        ActionModel::Deliver(l),
        ActionModel::PullNext,
        ActionModel::FailTransport(cause),
    ]);
    lemma_relay_stopped_stays(base, RelayPhase::Subscribing, evs, later);
}

} // verus!
