//! The words of the console: what a person may type, and how plays, events
//! and the choice of actions read as text. Printing and reading are left to
//! the program around the library.

use crate::card::Card;
use crate::event::Event;
use crate::event::EventView;
use crate::play::Action;
use crate::play::Play;
use crate::player::PlayerData;
use crate::player::PlayerId;
use crate::text::decimal;
use crate::text::join;
use crate::text::joined;
use crate::text::parse_index;
use crate::text::parsed_index;
use crate::text::render_index;
use crate::text::texts;
use vstd::prelude::*;

verus! {

/// What a person at the console may ask for.
#[derive(Debug, PartialEq, Eq, Clone, Copy)]
pub enum ConsoleAction {
    Quit,
    Rules,
    CardEffects,
    Card(Card),
    Player(PlayerId),
}

/// The answer to a line that is no command.
#[derive(Debug, PartialEq, Eq)]
pub struct ParseActionError;

/// The names of the seats, as sequences of characters.
pub open spec fn names_of(players: Seq<&String>) -> Seq<Seq<char>> {
    Seq::new(players.len(), |seat: int| players[seat]@)
}

impl ConsoleAction {
    /// What a command does, in words; for a card its rule, for a seat the
    /// name of its player.
    pub open spec fn info_view(self, names: Seq<Seq<char>>) -> Seq<char> {
        match self {
            ConsoleAction::Quit => "quit"@,
            ConsoleAction::Rules => "display rules"@,
            ConsoleAction::CardEffects => "display card effects"@,
            ConsoleAction::Card(card) => card.rule_view(),
            ConsoleAction::Player(seat) => names[seat as int],
        }
    }

    /// What a person types for a command.
    pub open spec fn cmd_view(self) -> Seq<char> {
        match self {
            ConsoleAction::Quit => "q"@,
            ConsoleAction::Rules => "r"@,
            ConsoleAction::CardEffects => "c"@,
            ConsoleAction::Card(card) => card.name_view(),
            ConsoleAction::Player(seat) => decimal(seat as nat),
        }
    }

    /// The command that a line stands for: one of the three letters, else
    /// the name of a rank, else the index of a seat.
    pub open spec fn parsed(text: Seq<char>) -> Result<ConsoleAction, ParseActionError> {
        if text == "q"@ {
            Ok(ConsoleAction::Quit)
        } else if text == "r"@ {
            Ok(ConsoleAction::Rules)
        } else if text == "c"@ {
            Ok(ConsoleAction::CardEffects)
        } else if Card::named(text) is Some {
            Ok(ConsoleAction::Card(Card::named(text)->0))
        } else if parsed_index(text) is Some {
            Ok(ConsoleAction::Player(parsed_index(text)->0))
        } else {
            Err(ParseActionError)
        }
    }

    /// What the command does, in words. A seat must be one of `players`.
    pub fn info(&self, players: &[&String]) -> (info: String)
        requires
            self matches ConsoleAction::Player(seat) ==> seat < players@.len(),
        ensures
            info@ == self.info_view(names_of(players@)),
    {
        match self {
            ConsoleAction::Quit => "quit".to_owned(),
            ConsoleAction::Rules => "display rules".to_owned(),
            ConsoleAction::CardEffects => "display card effects".to_owned(),
            ConsoleAction::Card(card) => card.rule(),
            ConsoleAction::Player(seat) => players[*seat].clone(),
        }
    }

    /// What a person types for the command.
    pub fn cmd_str(&self) -> (cmd: String)
        ensures
            cmd@ == self.cmd_view(),
    {
        match self {
            ConsoleAction::Quit => "q".to_owned(),
            ConsoleAction::Rules => "r".to_owned(),
            ConsoleAction::CardEffects => "c".to_owned(),
            ConsoleAction::Card(card) => card.name(),
            ConsoleAction::Player(seat) => render_index(*seat),
        }
    }

    /// Reads a command from a line.
    pub fn parse(text: &str) -> (command: Result<ConsoleAction, ParseActionError>)
        ensures
            command == ConsoleAction::parsed(text@),
    {
        let line = text.to_owned();
        if line == "q".to_owned() {
            return Ok(ConsoleAction::Quit);
        }
        if line == "r".to_owned() {
            return Ok(ConsoleAction::Rules);
        }
        if line == "c".to_owned() {
            return Ok(ConsoleAction::CardEffects);
        }
        if let Some(card) = Card::parse(text) {
            return Ok(ConsoleAction::Card(card));
        }
        if let Some(seat) = parse_index(text) {
            return Ok(ConsoleAction::Player(seat));
        }
        Err(ParseActionError)
    }
}

impl std::str::FromStr for ConsoleAction {
    type Err = ParseActionError;

    fn from_str(s: &str) -> (command: Result<Self, Self::Err>)
        ensures
            command == ConsoleAction::parsed(s@),
    {
        ConsoleAction::parse(s)
    }
}

/// A play as text: the card, then the opponent and the guess if there are
/// any, each on a line of its own.
pub open spec fn play_text(play: Play, names: Seq<Seq<char>>) -> Seq<char> {
    "\n\t"@ + play.card.name_view() + (match play.opponent {
        Some(seat) => "\n\tOpponent: "@ + names[seat as int],
        None => Seq::empty(),
    }) + (match play.guess {
        Some(card) => "\n\tGuess: "@ + card.name_view(),
        None => Seq::empty(),
    })
}

/// A card that may be hidden, as text.
pub open spec fn card_text(card: Option<Card>) -> Seq<char> {
    match card {
        Some(card) => card.name_view(),
        None => "***"@,
    }
}

/// The names of the seats in `seats`, in that order.
pub open spec fn names_at(seats: Seq<PlayerId>, names: Seq<Seq<char>>) -> Seq<Seq<char>> {
    Seq::new(seats.len(), |i: int| names[seats[i] as int])
}

/// An event as a line of text.
pub open spec fn event_text(event: EventView, names: Seq<Seq<char>>) -> Seq<char> {
    match event {
        EventView::Play(seat, play) => "~ Play: "@ + names[seat as int] + " played "@ + play_text(
            play,
            names,
        ),
        EventView::DropOut(seat) => "~ DropOut: "@ + names[seat as int],
        EventView::Fold(seat, card, reason) => "~ Fold: "@ + names[seat as int] + " folded "@
            + card.name_view() + ", because "@ + reason,
        EventView::PickUp(seat, card, remaining) => "~ PickUp: "@ + names[seat as int]
            + " picked up "@ + card_text(card) + " , "@ + decimal(remaining as nat)
            + " cards remaining in deck"@,
        EventView::LearnedCard(seat, card) => "~ LearnedCard: "@ + names[seat as int]
            + " has card "@ + card_text(card),
        EventView::Winner(seats) => "Winner is "@ + joined(names_at(seats, names), ", "@),
    }
}

/// Whether every seat that `event` speaks of is one of `seats` seats.
pub open spec fn event_fits(event: EventView, seats: int) -> bool {
    match event {
        EventView::Play(seat, play) => seat < seats && (play.opponent is Some
            ==> play.opponent->0 < seats),
        EventView::DropOut(seat) => seat < seats,
        EventView::Fold(seat, _, _) => seat < seats,
        EventView::PickUp(seat, _, _) => seat < seats,
        EventView::LearnedCard(seat, _) => seat < seats,
        EventView::Winner(winners) => seats_fit(winners, seats),
    }
}

/// Whether each of `winners` is one of `seats` seats.
pub open spec fn seats_fit(winners: Seq<PlayerId>, seats: int) -> bool {
    forall|i: int| 0 <= i < winners.len() ==> (#[trigger] winners[i]) < seats
}

/// The line that offers the `index`-th action.
pub open spec fn action_line(index: int, action: Action, names: Seq<Seq<char>>) -> Seq<char> {
    "- ["@ + decimal(index as nat) + "]:\t"@ + match action {
        Action::GiveUp => "give up"@,
        Action::Play(play) => play_text(play, names),
    }
}

/// The lines that offer a choice: the two side-commands, then each action
/// under its index.
pub open spec fn menu_text(actions: Seq<Action>, names: Seq<Seq<char>>) -> Seq<Seq<char>> {
    Seq::new(
        actions.len() + 2,
        |k: int|
            if k == 0 {
                "- [r]:\tdisplay rules"@
            } else if k == 1 {
                "- [c]:\tdisplay card effects"@
            } else {
                action_line(k - 2, actions[k - 2], names)
            },
    )
}

/// Whether every seat that `action` aims at is one of `seats` seats.
pub open spec fn action_fits(action: Action, seats: int) -> bool {
    action matches Action::Play(play) ==> (play.opponent is Some ==> play.opponent->0 < seats)
}

/// Whether every seat that `event` speaks of is one of `seats` seats.
pub fn names_cover_event(event: &Event, seats: usize) -> (covered: bool)
    ensures
        covered == event_fits(event@, seats as int),
{
    match event {
        Event::Play(seat, play) => *seat < seats && match play.opponent {
            Some(aimed) => aimed < seats,
            None => true,
        },
        Event::DropOut(seat) => *seat < seats,
        Event::Fold(seat, _, _) => *seat < seats,
        Event::PickUp(seat, _, _) => *seat < seats,
        Event::LearnedCard(seat, _) => *seat < seats,
        Event::Winner(winners) => {
            let mut i: usize = 0;
            while i < winners.len()
                invariant
                    i <= winners.len(),
                    event@ == EventView::Winner(winners@),
                    forall|k: int| 0 <= k < i ==> (#[trigger] winners@[k]) < seats,
                decreases winners.len() - i,
            {
                if winners[i] >= seats {
                    assert(!seats_fit(winners@, seats as int)) by {
                        assert(winners@[i as int] >= seats);
                    }
                    return false;
                }
                i += 1;
            }
            true
        },
    }
}

/// Whether every seat that `action` aims at is one of `seats` seats.
pub fn names_cover_action(action: &Action, seats: usize) -> (covered: bool)
    ensures
        covered == action_fits(*action, seats as int),
{
    match action {
        Action::GiveUp => true,
        Action::Play(play) => match play.opponent {
            Some(aimed) => aimed < seats,
            None => true,
        },
    }
}

/// A person at a console.
pub struct ConsolePlayer {
    pub data: PlayerData,
}

impl ConsolePlayer {
    /// A player at the console that goes by `name`.
    pub fn named(name: String) -> (player: ConsolePlayer)
        ensures
            player.data.name_view() == name@,
    {
        ConsolePlayer { data: PlayerData::new(name) }
    }

    /// A play as text. A seat aimed at is shown by its name in `players`.
    pub fn format_play(&self, play: &Play, players: &[&String]) -> (text: String)
        requires
            play.opponent is Some ==> play.opponent->0 < players@.len(),
        ensures
            text@ == play_text(*play, names_of(players@)),
    {
        let mut text = "\n\t".to_owned();
        text.append(play.card.label());
        if let Some(seat) = play.opponent {
            text.append("\n\tOpponent: ");
            text.append(players[seat].as_str());
        }
        if let Some(card) = play.guess {
            text.append("\n\tGuess: ");
            text.append(card.label());
        }
        assert(text@ =~= play_text(*play, names_of(players@)));
        text
    }

    /// An event as a line of text. Seats are shown by their names in
    /// `players`, and a card that is hidden as three stars.
    pub fn describe_event(&self, event: &Event, players: &[&String]) -> (text: String)
        requires
            event_fits(event@, players@.len() as int),
        ensures
            text@ == event_text(event@, names_of(players@)),
    {
        let ghost names = names_of(players@);
        match event {
            Event::Play(seat, play) => {
                let mut text = "~ Play: ".to_owned();
                text.append(players[*seat].as_str());
                text.append(" played ");
                let shown = self.format_play(play, players);
                text.append(shown.as_str());
                assert(text@ =~= event_text(event@, names));
                text
            },
            Event::DropOut(seat) => {
                let mut text = "~ DropOut: ".to_owned();
                text.append(players[*seat].as_str());
                text
            },
            Event::Fold(seat, card, reason) => {
                let mut text = "~ Fold: ".to_owned();
                text.append(players[*seat].as_str());
                text.append(" folded ");
                text.append(card.label());
                text.append(", because ");
                text.append(reason.as_str());
                assert(text@ =~= event_text(event@, names));
                text
            },
            Event::PickUp(seat, card, remaining) => {
                let mut text = "~ PickUp: ".to_owned();
                text.append(players[*seat].as_str());
                text.append(" picked up ");
                match card {
                    Some(card) => text.append(card.label()),
                    None => text.append("***"),
                }
                text.append(" , ");
                let left = render_index(*remaining);
                text.append(left.as_str());
                text.append(" cards remaining in deck");
                assert(text@ =~= event_text(event@, names));
                text
            },
            Event::LearnedCard(seat, card) => {
                let mut text = "~ LearnedCard: ".to_owned();
                text.append(players[*seat].as_str());
                text.append(" has card ");
                match card {
                    Some(card) => text.append(card.label()),
                    None => text.append("***"),
                }
                assert(text@ =~= event_text(event@, names));
                text
            },
            Event::Winner(seats) => {
                assert(event@ == EventView::Winner(seats@));
                assert(seats_fit(seats@, players@.len() as int));
                let mut winners: Vec<String> = Vec::new();
                let mut i: usize = 0;
                while i < seats.len()
                    invariant
                        i <= seats.len(),
                        winners@.len() == i,
                        names == names_of(players@),
                        seats_fit(seats@, players@.len() as int),
                        forall|k: int|
                            0 <= k < i ==> (#[trigger] winners@[k])@ == names[seats@[k] as int],
                    decreases seats.len() - i,
                {
                    winners.push(players[seats[i]].clone());
                    i += 1;
                }
                assert(texts(winners@) =~= names_at(seats@, names));
                let banner = join(&winners, ", ");
                let mut text = "Winner is ".to_owned();
                text.append(banner.as_str());
                text
            },
        }
    }

    /// The lines that offer `actions` to the person at the console: how to
    /// ask for the rules and for the card effects, then each action under
    /// the index to type for it.
    pub fn menu(&self, actions: &[Action], players: &[&String]) -> (lines: Vec<String>)
        requires
            forall|i: int|
                0 <= i < actions@.len() ==> action_fits(
                    #[trigger] actions@[i],
                    players@.len() as int,
                ),
        ensures
            texts(lines@) == menu_text(actions@, names_of(players@)),
    {
        let ghost names = names_of(players@);
        let mut lines: Vec<String> = Vec::new();
        lines.push("- [r]:\tdisplay rules".to_owned());
        lines.push("- [c]:\tdisplay card effects".to_owned());
        let mut i: usize = 0;
        while i < actions.len()
            invariant
                i <= actions.len(),
                names == names_of(players@),
                lines@.len() == i + 2,
                forall|k: int|
                    0 <= k < actions@.len() ==> action_fits(
                        #[trigger] actions@[k],
                        players@.len() as int,
                    ),
                forall|k: int|
                    0 <= k < i + 2 ==> (#[trigger] lines@[k])@ == menu_text(actions@, names)[k],
            decreases actions.len() - i,
        {
            let mut line = "- [".to_owned();
            let index = render_index(i);
            line.append(index.as_str());
            line.append("]:\t");
            assert(action_fits(actions@[i as int], players@.len() as int));
            match &actions[i] {
                Action::GiveUp => line.append("give up"),
                Action::Play(play) => {
                    let shown = self.format_play(play, players);
                    line.append(shown.as_str());
                },
            }
            assert(line@ =~= action_line(i as int, actions@[i as int], names));
            lines.push(line);
            i += 1;
        }
        assert(texts(lines@) =~= menu_text(actions@, names));
        lines
    }
}

} // verus!
