//! The eight ranks of the game, their order and their targeting requirements.

use crate::text::decimal;
use crate::text::join;
use crate::text::joined;
use crate::text::render_index;
use crate::text::texts;
use vstd::prelude::*;

verus! {

/// One of the eight ranks, declared from the least to the most valuable.
#[derive(Debug, PartialEq, Eq, Copy, Clone, PartialOrd, Ord, Hash, Structural)]
pub enum Card {
    Guard,
    Priest,
    Baron,
    Maid,
    Prince,
    King,
    Countess,
    Princess,
}

/// What the Guard does.
pub const GUARD_EFFECT: &'static str =
    "If you play this card, you may choose an opponent and attempt to guess their \
    card. If you guess right they drop out of the game. You may not guess the \
    Guardian.";

/// What the Priest does.
pub const PRIEST_EFFECT: &'static str =
    "If you play this card, you may choose an opponent and see their card.";

/// What the Baron does.
pub const BARON_EFFECT: &'static str =
    "If you play this card, you may compare your other card against the card of an \
    opponent. The one with the lower card is drops out of the game. If they are \
    equal no one drops out.";

/// What the Maid does.
pub const MAID_EFFECT: &'static str =
    "If you play this card, you are protected against all forms of attack for a \
    single round. If the opponets forget and attempt to attack you, they drop out.";

/// What the Prince does.
pub const PRINCE_EFFECT: &'static str =
    "If you play this card, you may force an opponent to fold their card and fetch \
    a new one from the deck.";

/// What the King does.
pub const KING_EFFECT: &'static str =
    "If you play this card, you may choose an opponent and exchange you other card \
    with theirs.";

/// What the Countess does.
pub const COUNTESS_EFFECT: &'static str =
    "If you in addition to this card hold either Prince or King, you must play it \
    instead of the King or Prince.";

/// What the Princess does.
pub const PRINCESS_EFFECT: &'static str =
    "You must never play this card. If you are force to fold this card by any means \
    (for example if you opponent plays the prince), you drop out.";

/// The sixteen cards of a full deck, before shuffling.
pub open spec fn standard_deck() -> Seq<Card> {
    seq![
        Card::Guard,
        Card::Guard,
        Card::Guard,
        Card::Guard,
        Card::Guard,
        Card::Priest,
        Card::Priest,
        Card::Baron,
        Card::Baron,
        Card::Maid,
        Card::Maid,
        Card::Prince,
        Card::Prince,
        Card::King,
        Card::Countess,
        Card::Princess,
    ]
}

/// All ranks in ascending order of value.
pub open spec fn all_ranks() -> Seq<Card> {
    seq![
        Card::Guard,
        Card::Priest,
        Card::Baron,
        Card::Maid,
        Card::Prince,
        Card::King,
        Card::Countess,
        Card::Princess,
    ]
}

/// The ranks that may be named as a guess, in ascending order of value.
pub open spec fn guessable_ranks() -> Seq<Card> {
    seq![
        Card::Priest,
        Card::Baron,
        Card::Maid,
        Card::Prince,
        Card::King,
        Card::Countess,
        Card::Princess,
    ]
}

impl Card {
    /// The value of a rank, from 1 (Guard) to 8 (Princess).
    pub open spec fn rank(self) -> int {
        match self {
            Card::Guard => 1,
            Card::Priest => 2,
            Card::Baron => 3,
            Card::Maid => 4,
            Card::Prince => 5,
            Card::King => 6,
            Card::Countess => 7,
            Card::Princess => 8,
        }
    }

    /// Whether playing this rank asks for a guess: only the Guard does.
    pub open spec fn wants_guess(self) -> bool {
        self == Card::Guard
    }

    /// Whether the effect of this rank is aimed at another seat.
    pub open spec fn wants_opponent(self) -> bool {
        self == Card::Guard || self == Card::Priest || self == Card::Baron || self == Card::Prince
            || self == Card::King
    }

    /// Whether this rank may be named as a guess: every rank but the Guard.
    pub open spec fn is_guessable(self) -> bool {
        self != Card::Guard
    }

    /// The name of a rank.
    pub open spec fn name_view(self) -> Seq<char> {
        match self {
            Card::Guard => "Guard"@,
            Card::Priest => "Priest"@,
            Card::Baron => "Baron"@,
            Card::Maid => "Maid"@,
            Card::Prince => "Prince"@,
            Card::King => "King"@,
            Card::Countess => "Countess"@,
            Card::Princess => "Princess"@,
        }
    }

    /// What a rank does, in a sentence or two.
    pub open spec fn message_view(self) -> Seq<char> {
        match self {
            Card::Guard => GUARD_EFFECT@,
            Card::Priest => PRIEST_EFFECT@,
            Card::Baron => BARON_EFFECT@,
            Card::Maid => MAID_EFFECT@,
            Card::Prince => PRINCE_EFFECT@,
            Card::King => KING_EFFECT@,
            Card::Countess => COUNTESS_EFFECT@,
            Card::Princess => PRINCESS_EFFECT@,
        }
    }

    /// The line that describes a rank: its name, its value, what it does.
    pub open spec fn rule_view(self) -> Seq<char> {
        self.name_view() + " [value = "@ + decimal(self.rank() as nat) + "]: "@
            + self.message_view()
    }

    /// The rank that goes by the name `text`, if there is one.
    pub open spec fn named(text: Seq<char>) -> Option<Card> {
        if text == Card::Guard.name_view() {
            Some(Card::Guard)
        } else if text == Card::Priest.name_view() {
            Some(Card::Priest)
        } else if text == Card::Baron.name_view() {
            Some(Card::Baron)
        } else if text == Card::Maid.name_view() {
            Some(Card::Maid)
        } else if text == Card::Prince.name_view() {
            Some(Card::Prince)
        } else if text == Card::King.name_view() {
            Some(Card::King)
        } else if text == Card::Countess.name_view() {
            Some(Card::Countess)
        } else if text == Card::Princess.name_view() {
            Some(Card::Princess)
        } else {
            None
        }
    }

    /// The name of the rank, as a slice of the program's text.
    pub fn label(&self) -> (name: &'static str)
        ensures
            name@ == self.name_view(),
    {
        match self {
            Card::Guard => "Guard",
            Card::Priest => "Priest",
            Card::Baron => "Baron",
            Card::Maid => "Maid",
            Card::Prince => "Prince",
            Card::King => "King",
            Card::Countess => "Countess",
            Card::Princess => "Princess",
        }
    }

    /// The name of the rank.
    pub fn name(&self) -> (name: String)
        ensures
            name@ == self.name_view(),
    {
        self.label().to_owned()
    }

    /// What the rank does, in a sentence or two.
    pub fn message(&self) -> (message: &'static str)
        ensures
            message@ == self.message_view(),
    {
        match self {
            Card::Guard => GUARD_EFFECT,
            Card::Priest => PRIEST_EFFECT,
            Card::Baron => BARON_EFFECT,
            Card::Maid => MAID_EFFECT,
            Card::Prince => PRINCE_EFFECT,
            Card::King => KING_EFFECT,
            Card::Countess => COUNTESS_EFFECT,
            Card::Princess => PRINCESS_EFFECT,
        }
    }

    /// The line that describes the rank: its name, its value, what it does.
    pub fn rule(&self) -> (rule: String)
        ensures
            rule@ == self.rule_view(),
    {
        let mut rule = self.name();
        rule.append(" [value = ");
        let value = render_index(self.value() as usize);
        rule.append(value.as_str());
        rule.append("]: ");
        rule.append(self.message());
        rule
    }

    /// The lines that describe the ranks, from the lowest to the highest,
    /// each on a line of its own.
    pub fn rules() -> (rules: String)
        ensures
            rules@ == joined(Seq::new(8, |i: int| all_ranks()[i].rule_view()), "\n"@),
    {
        let ranks = Card::all();
        let mut lines: Vec<String> = Vec::new();
        let mut i: usize = 0;
        while i < 8
            invariant
                i <= 8,
                ranks@ == all_ranks(),
                lines@.len() == i,
                forall|k: int| 0 <= k < i ==> (#[trigger] lines@[k])@ == all_ranks()[k].rule_view(),
            decreases 8 - i,
        {
            lines.push(ranks[i].rule());
            i += 1;
        }
        assert(texts(lines@) =~= Seq::new(8, |i: int| all_ranks()[i].rule_view()));
        join(&lines, "\n")
    }

    /// Reads the name of a rank.
    pub fn parse(text: &str) -> (card: Option<Card>)
        ensures
            card == Card::named(text@),
    {
        let ranks = Card::all();
        let wanted = text.to_owned();
        let mut i: usize = 0;
        while i < 8
            invariant
                i <= 8,
                ranks@ == all_ranks(),
                wanted@ == text@,
                forall|k: int| 0 <= k < i ==> all_ranks()[k].name_view() != text@,
            decreases 8 - i,
        {
            if wanted == ranks[i].name() {
                return Some(ranks[i]);
            }
            i += 1;
        }
        assert(all_ranks()[0] == Card::Guard && all_ranks()[1] == Card::Priest && all_ranks()[2]
            == Card::Baron && all_ranks()[3] == Card::Maid && all_ranks()[4] == Card::Prince
            && all_ranks()[5] == Card::King && all_ranks()[6] == Card::Countess && all_ranks()[7]
            == Card::Princess);
        None
    }

    /// The value of the rank, from 1 (Guard) to 8 (Princess).
    pub fn value(&self) -> (v: u8)
        ensures
            v == self.rank(),
    {
        match self {
            Card::Guard => 1,
            Card::Priest => 2,
            Card::Baron => 3,
            Card::Maid => 4,
            Card::Prince => 5,
            Card::King => 6,
            Card::Countess => 7,
            Card::Princess => 8,
        }
    }

    /// Whether playing this rank asks for a guess.
    pub fn needs_guess(&self) -> (b: bool)
        ensures
            b == self.wants_guess(),
    {
        *self == Card::Guard
    }

    /// Whether the effect of this rank is aimed at another seat.
    pub fn needs_opponent(&self) -> (b: bool)
        ensures
            b == self.wants_opponent(),
    {
        match self {
            Card::Guard | Card::Priest | Card::Baron | Card::Prince | Card::King => true,
            _ => false,
        }
    }

    /// The ranks that may be guessed, in ascending order of value.
    pub fn guessable() -> (ranks: Vec<Card>)
        ensures
            ranks@ == guessable_ranks(),
    {
        let ranks = vec![
            Card::Priest,
            Card::Baron,
            Card::Maid,
            Card::Prince,
            Card::King,
            Card::Countess,
            Card::Princess,
        ];
        assert(ranks@ =~= guessable_ranks());
        ranks
    }

    /// Every rank, in ascending order of value.
    pub fn all() -> (ranks: Vec<Card>)
        ensures
            ranks@ == all_ranks(),
    {
        let ranks = vec![
            Card::Guard,
            Card::Priest,
            Card::Baron,
            Card::Maid,
            Card::Prince,
            Card::King,
            Card::Countess,
            Card::Princess,
        ];
        assert(ranks@ =~= all_ranks());
        ranks
    }

    /// A full, unshuffled deck.
    pub fn deck() -> (cards: Vec<Card>)
        ensures
            cards@ == standard_deck(),
    {
        let cards = vec![
            Card::Guard,
            Card::Guard,
            Card::Guard,
            Card::Guard,
            Card::Guard,
            Card::Priest,
            Card::Priest,
            Card::Baron,
            Card::Baron,
            Card::Maid,
            Card::Maid,
            Card::Prince,
            Card::Prince,
            Card::King,
            Card::Countess,
            Card::Princess,
        ];
        assert(cards@ =~= standard_deck());
        cards
    }
}

/// A rank may be guessed exactly when it is listed by `guessable_ranks`,
/// and the ranks' values are distinct and ordered as they are declared.
pub proof fn lemma_guessable_ranks(c: Card)
    ensures
        c.is_guessable() <==> guessable_ranks().contains(c),
        all_ranks().contains(c),
        1 <= c.rank() <= 8,
        all_ranks()[c.rank() - 1] == c,
{
    let g = guessable_ranks();
    let a = all_ranks();
    if c.is_guessable() {
        assert(g[c.rank() - 2] == c);
    }
    assert(a[c.rank() - 1] == c);
}

} // verus!
