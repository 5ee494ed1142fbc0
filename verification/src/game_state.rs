//! The table of a round: the seats, the deck, and the questions the rules
//! ask of them: who is active, who is protected, what is legal.

use crate::card::Card;
use crate::card::all_ranks;
use crate::card::guessable_ranks;
use crate::event::EventEntry;
use crate::event::entries;
use crate::model::GameModel;
use crate::model::PlayerModel;
use crate::model::Round;
use crate::model::guesses_with;
use crate::model::opening;
use crate::play::Action;
use crate::play::Play;
use crate::player::PlayerId;
use std::collections::HashSet;
use vstd::prelude::*;

verus! {

/// What the engine keeps for one seat.
pub struct PlayerState {
    protected: bool,
    hand: Vec<Card>,
}

impl View for PlayerState {
    type V = PlayerModel;

    closed spec fn view(&self) -> PlayerModel {
        PlayerModel { protected: self.protected, hand: self.hand@ }
    }
}

impl PlayerState {
    /// A seat without cards and without protection.
    pub fn new() -> (state: Self)
        ensures
            state@ == (PlayerModel { protected: false, hand: Seq::empty() }),
    {
        PlayerState { protected: false, hand: Vec::new() }
    }

    /// A seat that holds `hand`.
    pub fn holding(protected: bool, hand: Vec<Card>) -> (state: Self)
        ensures
            state@ == (PlayerModel { protected, hand: hand@ }),
    {
        PlayerState { protected, hand }
    }

    /// Whether the seat is protected.
    pub fn protected(&self) -> (value: bool)
        ensures
            value == self@.protected,
    {
        self.protected
    }

    /// Sets or clears the protection of the seat; the hand stays.
    pub fn set_protected(&mut self, value: bool)
        ensures
            final(self)@ == (PlayerModel { protected: value, hand: old(self)@.hand }),
    {
        self.protected = value;
    }

    /// The cards that the seat holds, oldest first.
    pub fn hand(&self) -> (hand: &Vec<Card>)
        ensures
            hand@ == self@.hand,
    {
        &self.hand
    }

    /// The hand, to be changed in place: what the caller leaves in it is the
    /// seat's hand from then on.
    pub fn hand_mut(&mut self) -> (hand: &mut Vec<Card>)
        ensures
            hand@ == old(self)@.hand,
            final(self)@ == (PlayerModel { protected: old(self)@.protected, hand: final(hand)@ }),
    {
        &mut self.hand
    }

    /// Whether the seat holds a card.
    pub fn is_active(&self) -> (active: bool)
        ensures
            active == (self@.hand.len() > 0),
    {
        self.hand.len() > 0
    }
}

/// Whether `card` is among `hand`.
pub fn holds(hand: &Vec<Card>, card: Card) -> (found: bool)
    ensures
        found == hand@.contains(card),
{
    let mut i: usize = 0;
    while i < hand.len()
        invariant
            i <= hand.len(),
            forall|j: int| 0 <= j < i ==> hand@[j] != card,
        decreases hand.len() - i,
    {
        if hand[i] == card {
            return true;
        }
        i += 1;
    }
    false
}

/// Appends to `plays` the plays of `card` against `opponent`, one for each
/// choice of guess: the guessable ranks in order, then none.
fn push_guesses(plays: &mut Vec<Action>, card: Card, opponent: Option<PlayerId>)
    ensures
        final(plays)@ == old(plays)@ + guesses_with(card, opponent),
{
    let guesses = Card::guessable();
    let ghost before = plays@;
    let mut g: usize = 0;
    while g < 7
        invariant
            g <= 7,
            guesses@ == guessable_ranks(),
            plays@ == before + guesses_with(card, opponent).take(g as int),
        decreases 7 - g,
    {
        plays.push(Action::Play(Play { card, opponent, guess: Some(guesses[g]) }));
        g += 1;
        assert(plays@ =~= before + guesses_with(card, opponent).take(g as int));
    }
    plays.push(Action::Play(Play { card, opponent, guess: None }));
    assert(plays@ =~= before + guesses_with(card, opponent));
}

/// The table of a round. `deck` is shuffled before the round and never
/// changes; its first `played_card_count` cards have been drawn.
pub struct GameState<'a> {
    pub players: Vec<PlayerState>,
    pub played_card_count: usize,
    pub players_turn: PlayerId,
    pub deck: &'a [Card],
}

impl<'a> View for GameState<'a> {
    type V = GameModel;

    open spec fn view(&self) -> GameModel {
        GameModel {
            players: Seq::new(self.players.len() as nat, |seat: int| self.players[seat]@),
            played_card_count: self.played_card_count,
            players_turn: self.players_turn,
            deck: self.deck@,
        }
    }
}

/// The round that a table and a log stand for.
pub open spec fn table(game: GameModel, log: Seq<EventEntry>) -> Round {
    Round { game, log: entries(log) }
}

impl<'a> GameState<'a> {
    /// Opens a round at a table of `player_count` seats: each seat draws one
    /// card in turn, then the first seat draws a second. Every draw is
    /// appended to `log`. The deck must hold a card for each draw.
    pub fn new(player_count: usize, deck: &'a [Card], log: &mut Vec<EventEntry>) -> (state: Self)
        requires
            1 <= player_count < deck.len(),
        ensures
            table(state@, final(log)@) == opening(
                player_count as int,
                deck@,
                entries(old(log)@),
            ),
            state@.wf(),
            state@.remaining() == deck@.len() - player_count - 1,
    {
        let mut state = GameState {
            players: Vec::new(),
            played_card_count: 0,
            players_turn: 0,
            deck,
        };
        let ghost begun = entries(log@);
        let ghost goal = opening(player_count as int, deck@, begun);
        let mut i: usize = 0;
        while i < player_count
            invariant
                i <= player_count < deck.len(),
                goal == opening(player_count as int, deck@, begun),
                state.deck == deck,
                state.players_turn == 0,
                state.played_card_count == i,
                state.players.len() == i,
                forall|seat: int|
                    0 <= seat < i ==> (#[trigger] state@.players[seat]) == (PlayerModel {
                        protected: false,
                        hand: seq![deck@[seat]],
                    }),
                entries(log@) == begun + goal.log.subrange(begun.len() as int, begun.len() + i),
            decreases player_count - i,
        {
            let ghost before = state@;
            state.players.push(PlayerState::new());
            assert(state@.players =~= before.players.push(
                PlayerModel { protected: false, hand: Seq::empty() },
            ));
            state.pick_up_card(i, log);
            i += 1;
            proof {
                assert(state@.players.len() == i);
                assert(state@.players[i - 1].hand =~= seq![deck@[i - 1]]);
                assert(entries(log@) =~= begun + goal.log.subrange(
                    begun.len() as int,
                    begun.len() + i,
                ));
            }
        }
        state.pick_up_card(0, log);
        proof {
            assert(state@.players[0].hand =~= seq![deck@[0], deck@[player_count as int]]);
            assert(state@.players =~= goal.game.players);
            assert(entries(log@) =~= goal.log);
            assert(state@.game_over() || state@.players[0].hand.len() == 2);
        }
        state
    }

    /// The legal actions of the turn with the seat that has to choose among
    /// them; no seat and no action once the round is over.
    pub fn valid_actions(&self) -> (offer: (Option<PlayerId>, Vec<Action>))
        ensures
            offer.1@ == self@.legal_actions(),
            offer.0 == if self@.game_over() {
                None
            } else {
                Some(self.players_turn)
            },
    {
        let possible = self.possible_actions();
        let mut actions: Vec<Action> = Vec::new();
        let ghost legal = |action: Action| self@.is_valid(action);
        let ghost every = seq![Action::GiveUp] + possible@;
        proof {
            reveal_with_fuel(Seq::filter, 2);
            assert(every.take(1) =~= seq![Action::GiveUp]);
            assert(every.take(1).drop_last() =~= Seq::<Action>::empty());
        }
        if self.is_valid(&Action::GiveUp) {
            actions.push(Action::GiveUp);
        }
        let mut i: usize = 0;
        while i < possible.len()
            invariant
                i <= possible.len(),
                every == seq![Action::GiveUp] + possible@,
                legal == |action: Action| self@.is_valid(action),
                actions@ == every.take(i + 1).filter(legal),
            decreases possible.len() - i,
        {
            proof {
                reveal(Seq::filter);
                assert(every.take(i + 2).drop_last() =~= every.take(i + 1));
                assert(every.take(i + 2).last() == possible@[i as int]);
            }
            if self.is_valid(&possible[i]) {
                actions.push(possible[i]);
            }
            i += 1;
        }
        assert(every.take(possible.len() + 1) =~= every);
        let mover = if actions.is_empty() {
            None
        } else {
            Some(self.players_turn)
        };
        proof {
            if self@.game_over() {
                if actions@.len() > 0 {
                    every.lemma_filter_pred(legal, 0);
                }
            } else {
                every.lemma_filter_contains(legal, 0);
            }
        }
        (mover, actions)
    }

    /// Every play that could be written down at this table, legal or not.
    pub fn possible_actions(&self) -> (plays: Vec<Action>)
        ensures
            plays@ == self@.possible_actions(),
    {
        let ranks = Card::all();
        let seats = self.players.len();
        let mut plays: Vec<Action> = Vec::new();
        let mut c: usize = 0;
        while c < 8
            invariant
                c <= 8,
                ranks@ == all_ranks(),
                seats == self.players.len(),
                plays@ == self@.possible_cards(c as int),
            decreases 8 - c,
        {
            let mut o: usize = 0;
            while o < seats
                invariant
                    c < 8,
                    o <= seats,
                    ranks@ == all_ranks(),
                    seats == self.players.len(),
                    plays@ == self@.possible_cards(c as int) + self@.possible_opponents(
                        c as int,
                        o as int,
                    ),
                decreases seats - o,
            {
                push_guesses(&mut plays, ranks[c], Some(o));
                o += 1;
                assert(plays@ =~= self@.possible_cards(c as int) + self@.possible_opponents(
                    c as int,
                    o as int,
                ));
            }
            push_guesses(&mut plays, ranks[c], None);
            c += 1;
            assert(plays@ =~= self@.possible_cards(c as int));
        }
        plays
    }

    /// Whether the mover may submit `action`.
    pub fn is_valid(&self, action: &Action) -> (valid: bool)
        ensures
            valid == self@.is_valid(*action),
    {
        if self.game_over() {
            return false;
        }
        match action {
            Action::GiveUp => true,
            Action::Play(play) => {
                if self.players_turn >= self.players.len() {
                    return false;
                }
                let hand = self.players[self.players_turn].hand();
                if !holds(hand, play.card) {
                    return false;
                }
                if holds(hand, Card::Countess) && (play.card == Card::Prince || play.card
                    == Card::King) {
                    return false;
                }
                let all_protected = self.all_protected();
                if play.card.needs_opponent() && !all_protected {
                    if play.opponent.is_none() {
                        return false;
                    }
                } else if play.opponent.is_some() {
                    return false;
                }
                if play.card.needs_guess() && !all_protected {
                    match play.guess {
                        None => {
                            return false;
                        },
                        Some(guess) => {
                            if guess == Card::Guard {
                                return false;
                            }
                        },
                    }
                } else if play.guess.is_some() {
                    return false;
                }
                if let Some(seat) = play.opponent {
                    if seat == self.players_turn {
                        return false;
                    }
                    if seat >= self.players.len() {
                        return false;
                    }
                    if !self.players[seat].is_active() {
                        return false;
                    }
                }
                true
            },
        }
    }

    /// The seats that hold a card.
    pub fn active_players(&self) -> (seats: HashSet<PlayerId>)
        ensures
            seats@ == self@.active_seats(),
    {
        let mut seats: HashSet<PlayerId> = HashSet::new();
        let mut i: usize = 0;
        while i < self.players.len()
            invariant
                i <= self.players.len(),
                seats@ == Set::new(|seat: PlayerId| seat < i && self@.active(seat as int)),
            decreases self.players.len() - i,
        {
            if self.players[i].is_active() {
                seats.insert(i);
            }
            i += 1;
            assert(seats@ =~= Set::new(|seat: PlayerId| seat < i && self@.active(seat as int)));
        }
        assert(seats@ =~= self@.active_seats());
        seats
    }

    /// Every seat but the mover's.
    pub fn other_players(&self) -> (seats: HashSet<PlayerId>)
        ensures
            seats@ == self@.other_seats(),
    {
        let mut seats: HashSet<PlayerId> = HashSet::new();
        let mut i: usize = 0;
        while i < self.players.len()
            invariant
                i <= self.players.len(),
                seats@ == Set::new(|seat: PlayerId| seat < i && seat != self.players_turn),
            decreases self.players.len() - i,
        {
            if i != self.players_turn {
                seats.insert(i);
            }
            i += 1;
            assert(seats@ =~= Set::new(|seat: PlayerId| seat < i && seat != self.players_turn));
        }
        assert(seats@ =~= self@.other_seats());
        seats
    }

    /// The seats, other than the mover's, that hold a card.
    pub fn other_active_players(&self) -> (seats: HashSet<PlayerId>)
        ensures
            seats@ == self@.other_active_seats(),
            seats@ == self@.other_seats().intersect(self@.active_seats()),
    {
        let mut seats: HashSet<PlayerId> = HashSet::new();
        let mut i: usize = 0;
        while i < self.players.len()
            invariant
                i <= self.players.len(),
                seats@ == Set::new(|seat: PlayerId| seat < i && self@.other_active(seat as int)),
            decreases self.players.len() - i,
        {
            if i != self.players_turn && self.players[i].is_active() {
                seats.insert(i);
            }
            i += 1;
            assert(seats@ =~= Set::new(
                |seat: PlayerId| seat < i && self@.other_active(seat as int),
            ));
        }
        assert(seats@ =~= self@.other_active_seats());
        assert(seats@ =~= self@.other_seats().intersect(self@.active_seats()));
        seats
    }

    /// Whether every other active seat is protected.
    pub fn all_protected(&self) -> (all: bool)
        ensures
            all == self@.all_protected(),
    {
        let mut i: usize = 0;
        while i < self.players.len()
            invariant
                i <= self.players.len(),
                forall|seat: int|
                    0 <= seat < i && #[trigger] self@.other_active(seat)
                        ==> self@.players[seat].protected,
            decreases self.players.len() - i,
        {
            if i != self.players_turn && self.players[i].is_active()
                && !self.players[i].protected() {
                assert(self@.other_active(i as int));
                return false;
            }
            i += 1;
        }
        true
    }

    /// Whether the round is over: only the reserve card is left to draw, or
    /// at most one seat is active.
    pub fn game_over(&self) -> (over: bool)
        ensures
            over == self@.game_over(),
    {
        if self.deck.len() <= self.played_card_count || self.deck.len()
            - self.played_card_count <= 1 {
            return true;
        }
        let mut found: usize = 0;
        let ghost mut first: int = 0;
        let mut i: usize = 0;
        while i < self.players.len()
            invariant
                i <= self.players.len(),
                self@.remaining() > 1,
                found <= 1,
                found == 0 ==> forall|seat: int| 0 <= seat < i ==> !self@.active(seat),
                found == 1 ==> 0 <= first < i && self@.active(first) && forall|seat: int|
                    0 <= seat < i && seat != first ==> !self@.active(seat),
            decreases self.players.len() - i,
        {
            if self.players[i].is_active() {
                if found == 1 {
                    assert(self@.active(i as int) && self@.active(first));
                    return false;
                }
                found = 1;
                proof {
                    first = i as int;
                }
            }
            i += 1;
        }
        true
    }
}

} // verus!
