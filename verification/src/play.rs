//! What a mover may submit: giving up, or playing a card.

use crate::card::Card;
use crate::player::PlayerId;
use crate::text::decimal;
use crate::text::render_index;
use vstd::prelude::*;

verus! {

/// A card laid on the table, with the seat it is aimed at and the rank it
/// guesses, where the card asks for them.
#[derive(Debug, Clone, Copy, PartialEq, Eq)]
pub struct Play {
    pub card: Card,
    pub opponent: Option<PlayerId>,
    pub guess: Option<Card>,
}

/// An index into the list of legal actions of the current turn.
pub type ActionId = usize;

/// What a mover may submit.
#[derive(Debug, Clone, Copy, PartialEq, Eq)]
pub enum Action {
    GiveUp,
    Play(Play),
}

/// The answer to a text that names no card.
#[derive(Debug, PartialEq, Eq)]
pub struct ParsePlayError;

impl Play {
    /// A play as text: the card, then the number of the seat aimed at and
    /// the guess if there are any, each on a line of its own.
    pub open spec fn info_view(self) -> Seq<char> {
        "\n\t"@ + self.card.name_view() + (match self.opponent {
            Some(seat) => "\n\tOpponent: "@ + decimal(seat as nat),
            None => Seq::empty(),
        }) + (match self.guess {
            Some(card) => "\n\tGuess: "@ + card.name_view(),
            None => Seq::empty(),
        })
    }

    /// The play that a text stands for: the card of that name, aimed at
    /// nobody and without a guess.
    pub open spec fn parsed(text: Seq<char>) -> Result<Play, ParsePlayError> {
        match Card::named(text) {
            Some(card) => Ok(Play { card, opponent: None, guess: None }),
            None => Err(ParsePlayError),
        }
    }

    /// The play as text, the seat aimed at shown by its number.
    pub fn info(&self) -> (info: String)
        ensures
            info@ == self.info_view(),
    {
        let mut info = "\n\t".to_owned();
        info.append(self.card.label());
        if let Some(seat) = self.opponent {
            info.append("\n\tOpponent: ");
            let number = render_index(seat);
            info.append(number.as_str());
        }
        if let Some(card) = self.guess {
            info.append("\n\tGuess: ");
            info.append(card.label());
        }
        assert(info@ =~= self.info_view());
        info
    }

    /// Reads a play from the name of its card.
    pub fn parse(text: &str) -> (play: Result<Play, ParsePlayError>)
        ensures
            play == Play::parsed(text@),
    {
        match Card::parse(text) {
            Some(card) => Ok(Play { card, opponent: None, guess: None }),
            None => Err(ParsePlayError),
        }
    }
}

impl std::str::FromStr for Play {
    type Err = ParsePlayError;

    fn from_str(s: &str) -> (play: Result<Self, Self::Err>)
        ensures
            play == Play::parsed(s@),
    {
        Play::parse(s)
    }
}

} // verus!
