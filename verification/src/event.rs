//! The event log, the visibility of its entries and the per-viewer projection.

use crate::card::Card;
use crate::play::Action;
use crate::play::Play;
use crate::player::PlayerId;
use vstd::prelude::*;

verus! {

/// The reason of a fold: the mover gave up.
pub const GAVE_UP: &'static str = "gave up";

/// The reason of a fold: the mover aimed at a protected seat.
pub const ATTACKED_PROTECTED: &'static str = "attacked a protected player";

/// The reason of a fold: a Guard named the card.
pub const GUESSED: &'static str = "opponent guessed the hand card";

/// The reason of a fold: a Baron found the lower card.
pub const SMALLER_CARD: &'static str = "smaller card then opponent";

/// The reason of a fold: a Prince met the Princess.
pub const FORCED_TO_PLAY: &'static str = "forced to play it";

/// The reason of a fold: a Prince made the seat fold and draw.
pub const FORCED_BY_PRINCE: &'static str = "opponent has played prince to force it";

/// The reason of a fold: the mover laid the Princess.
pub const PLAYED_PRINCESS: &'static str = "playing the princess is equivalent to giving up";

/// The reason of a fold: the round was wrapped up.
pub const GAME_FINISHED: &'static str = "game is finished";

/// Something that happened at the table.
#[derive(Debug, PartialEq, Eq)]
pub enum Event {
    Play(PlayerId, Play),
    Fold(PlayerId, Card, String),
    PickUp(PlayerId, Option<Card>, usize),
    DropOut(PlayerId),
    LearnedCard(PlayerId, Option<Card>),
    Winner(Vec<PlayerId>),
}

/// The mathematical content of an `Event`: the reason of a fold as a
/// sequence of characters, the winners as a sequence of seats.
pub enum EventView {
    Play(PlayerId, Play),
    Fold(PlayerId, Card, Seq<char>),
    PickUp(PlayerId, Option<Card>, usize),
    DropOut(PlayerId),
    LearnedCard(PlayerId, Option<Card>),
    Winner(Seq<PlayerId>),
}

impl View for Event {
    type V = EventView;

    open spec fn view(&self) -> EventView {
        match *self {
            Event::Play(seat, play) => EventView::Play(seat, play),
            Event::Fold(seat, card, reason) => EventView::Fold(seat, card, reason@),
            Event::PickUp(seat, card, remaining) => EventView::PickUp(seat, card, remaining),
            Event::DropOut(seat) => EventView::DropOut(seat),
            Event::LearnedCard(seat, card) => EventView::LearnedCard(seat, card),
            Event::Winner(seats) => EventView::Winner(seats@),
        }
    }
}

impl Clone for Event {
    fn clone(&self) -> (copy: Self)
        ensures
            copy@ == self@,
    {
        match self {
            Event::Play(seat, play) => Event::Play(*seat, *play),
            Event::Fold(seat, card, reason) => Event::Fold(*seat, *card, reason.clone()),
            Event::PickUp(seat, card, remaining) => Event::PickUp(*seat, *card, *remaining),
            Event::DropOut(seat) => Event::DropOut(*seat),
            Event::LearnedCard(seat, card) => Event::LearnedCard(*seat, *card),
            Event::Winner(seats) => {
                let copied = seats.clone();
                assert(copied@ =~= seats@);
                Event::Winner(copied)
            },
        }
    }
}

/// Who may see the private payload of a log entry.
#[derive(Debug, Clone, Copy, PartialEq, Eq, Structural)]
pub enum EventVisibility {
    Public,
    Private(PlayerId),
}

/// An entry of the log: an event, and who may see its private payload.
#[derive(Debug, PartialEq, Eq)]
pub struct EventEntry {
    pub visibility: EventVisibility,
    pub event: Event,
}

/// The mathematical content of an `EventEntry`.
pub struct EntryView {
    pub visibility: EventVisibility,
    pub event: EventView,
}

impl View for EventEntry {
    type V = EntryView;

    open spec fn view(&self) -> EntryView {
        EntryView { visibility: self.visibility, event: self.event@ }
    }
}

/// The contents of a log, entry by entry.
pub open spec fn entries(log: Seq<EventEntry>) -> Seq<EntryView> {
    Seq::new(log.len(), |i: int| log[i]@)
}

/// The contents of a list of events, one by one.
pub open spec fn events(list: Seq<Event>) -> Seq<EventView> {
    Seq::new(list.len(), |i: int| list[i]@)
}

/// Appending an entry to a log appends its content to the log's contents.
pub proof fn lemma_entries_push(log: Seq<EventEntry>, entry: EventEntry)
    ensures
        entries(log.push(entry)) == entries(log).push(entry@),
{
    assert(entries(log.push(entry)) =~= entries(log).push(entry@));
}

impl EventView {
    /// The card that an event may keep from some viewers, if it carries one.
    pub open spec fn payload(self) -> Option<Card> {
        match self {
            EventView::PickUp(_, card, _) => card,
            EventView::LearnedCard(_, card) => card,
            _ => None,
        }
    }

    /// The event with its card payload blanked; events without one are unchanged.
    pub open spec fn redacted(self) -> EventView {
        match self {
            EventView::PickUp(seat, _, remaining) => EventView::PickUp(seat, None, remaining),
            EventView::LearnedCard(seat, _) => EventView::LearnedCard(seat, None),
            other => other,
        }
    }
}

impl EntryView {
    /// Whether `viewer` may see the entry in full. `None` is the omniscient view.
    pub open spec fn visible_to(self, viewer: Option<PlayerId>) -> bool {
        match self.visibility {
            EventVisibility::Public => true,
            EventVisibility::Private(owner) => viewer is None || viewer == Some(owner),
        }
    }

    /// What `viewer` gets to see of the entry.
    pub open spec fn shown_to(self, viewer: Option<PlayerId>) -> EventView {
        if self.visible_to(viewer) {
            self.event
        } else {
            self.event.redacted()
        }
    }
}

/// The log as `viewer` sees it: every entry in order, private payloads of
/// other seats blanked.
pub open spec fn project(log: Seq<EntryView>, viewer: Option<PlayerId>) -> Seq<EventView> {
    Seq::new(log.len(), |i: int| log[i].shown_to(viewer))
}

/// The log with every entry made public.
pub open spec fn published(log: Seq<EntryView>) -> Seq<EntryView> {
    Seq::new(
        log.len(),
        |i: int| EntryView { visibility: EventVisibility::Public, event: log[i].event },
    )
}

impl EventEntry {
    /// The event as `viewer` may see it.
    pub fn shown_to(&self, viewer: Option<PlayerId>) -> (event: Event)
        ensures
            event@ == self@.shown_to(viewer),
    {
        match self.visibility {
            EventVisibility::Public => self.event.clone(),
            EventVisibility::Private(owner) => {
                let full = match viewer {
                    None => true,
                    Some(seat) => seat == owner,
                };
                if full {
                    self.event.clone()
                } else {
                    match &self.event {
                        Event::PickUp(seat, _, remaining) => Event::PickUp(*seat, None, *remaining),
                        Event::LearnedCard(seat, _) => Event::LearnedCard(*seat, None),
                        other => other.clone(),
                    }
                }
            },
        }
    }
}

/// A private payload stays hidden from every seat but its owner: the
/// projection for another seat carries no card at that position, and changes
/// nothing else of the event.
pub proof fn lemma_project_hides_private(
    log: Seq<EntryView>,
    viewer: PlayerId,
    owner: PlayerId,
    i: int,
)
    requires
        0 <= i < log.len(),
        log[i].visibility == EventVisibility::Private(owner),
        viewer != owner,
    ensures
        project(log, Some(viewer))[i].payload() is None,
        project(log, Some(viewer))[i] == log[i].event.redacted(),
        project(log, Some(owner))[i] == log[i].event,
{
}

/// Once every entry is public, each seat sees what the omniscient view sees:
/// the whole log, unredacted.
pub proof fn lemma_project_published(log: Seq<EntryView>, viewer: Option<PlayerId>)
    ensures
        project(published(log), viewer) == project(published(log), None),
        project(published(log), viewer) == Seq::new(log.len(), |i: int| log[i].event),
{
    assert(project(published(log), viewer) =~= project(published(log), None));
    assert(project(published(log), viewer) =~= Seq::new(log.len(), |i: int| log[i].event));
}

/// What is sent to a remote decision-maker.
#[derive(Debug)]
pub enum GameEvent {
    Notify(NotifyEvent),
    ObtainAction(ObtainActionEvent),
}

/// The log as one seat may see it, with the names of all seats.
#[derive(Debug)]
pub struct NotifyEvent {
    pub players: Vec<String>,
    pub game_log: Vec<Event>,
}

/// A request for a decision: the names of all seats, the seat's view of the
/// log, and its legal actions.
#[derive(Debug)]
pub struct ObtainActionEvent {
    pub players: Vec<String>,
    pub game_log: Vec<Event>,
    pub valid_actions: Vec<Action>,
}

/// The answer of a remote decision-maker: an index into the legal actions.
#[derive(Debug)]
pub struct ClientEvent {
    pub action_id: usize,
}

/// Copies of the names in `players`, to be sent away.
pub fn copy_names(players: &[&String]) -> (names: Vec<String>)
    ensures
        names@.len() == players@.len(),
        forall|i: int| 0 <= i < names@.len() ==> (#[trigger] names@[i])@ == players@[i]@,
{
    let mut names: Vec<String> = Vec::new();
    let mut i: usize = 0;
    while i < players.len()
        invariant
            i <= players.len(),
            names@.len() == i,
            forall|k: int| 0 <= k < i ==> (#[trigger] names@[k])@ == players@[k]@,
        decreases players.len() - i,
    {
        names.push(players[i].clone());
        i += 1;
    }
    names
}

/// Copies of the events in `game_log`, to be sent away.
pub fn copy_events(game_log: &[Event]) -> (copies: Vec<Event>)
    ensures
        events(copies@) == events(game_log@),
{
    let mut copies: Vec<Event> = Vec::new();
    let mut i: usize = 0;
    while i < game_log.len()
        invariant
            i <= game_log.len(),
            copies@.len() == i,
            forall|k: int| 0 <= k < i ==> (#[trigger] copies@[k])@ == game_log@[k]@,
        decreases game_log.len() - i,
    {
        copies.push(game_log[i].clone());
        i += 1;
    }
    assert(events(copies@) =~= events(game_log@));
    copies
}

/// Copies of the actions in `valid_actions`, to be sent away.
pub fn copy_actions(valid_actions: &[Action]) -> (copies: Vec<Action>)
    ensures
        copies@ == valid_actions@,
{
    let mut copies: Vec<Action> = Vec::new();
    let mut i: usize = 0;
    while i < valid_actions.len()
        invariant
            i <= valid_actions.len(),
            copies@ == valid_actions@.take(i as int),
        decreases valid_actions.len() - i,
    {
        copies.push(valid_actions[i]);
        i += 1;
        assert(copies@ =~= valid_actions@.take(i as int));
    }
    assert(valid_actions@.take(valid_actions@.len() as int) =~= valid_actions@);
    copies
}

impl NotifyEvent {
    /// What a remote player is told: the names and the log, copied.
    pub fn new(players: &[&String], game_log: &[Event]) -> (message: NotifyEvent)
        ensures
            message.players@.len() == players@.len(),
            forall|i: int|
                0 <= i < players@.len() ==> (#[trigger] message.players@[i])@ == players@[i]@,
            events(message.game_log@) == events(game_log@),
    {
        NotifyEvent { players: copy_names(players), game_log: copy_events(game_log) }
    }
}

impl ObtainActionEvent {
    /// What a remote player is asked: the names, the log and the legal
    /// actions, copied.
    pub fn new(players: &[&String], game_log: &[Event], valid_actions: &[Action]) -> (message:
        ObtainActionEvent)
        ensures
            message.players@.len() == players@.len(),
            forall|i: int|
                0 <= i < players@.len() ==> (#[trigger] message.players@[i])@ == players@[i]@,
            events(message.game_log@) == events(game_log@),
            message.valid_actions@ == valid_actions@,
    {
        ObtainActionEvent {
            players: copy_names(players),
            game_log: copy_events(game_log),
            valid_actions: copy_actions(valid_actions),
        }
    }
}

} // verus!
