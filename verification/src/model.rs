//! The rules of a round as mathematics: the table as sequences of hands and
//! cards, which actions are legal, and what each step does to table and log.

use crate::card::Card;
use crate::card::all_ranks;
use crate::card::guessable_ranks;
use crate::event::ATTACKED_PROTECTED;
use crate::event::EntryView;
use crate::event::EventView;
use crate::event::EventVisibility;
use crate::event::FORCED_BY_PRINCE;
use crate::event::FORCED_TO_PLAY;
use crate::event::GAME_FINISHED;
use crate::event::GAVE_UP;
use crate::event::GUESSED;
use crate::event::PLAYED_PRINCESS;
use crate::event::SMALLER_CARD;
use crate::event::published;
use crate::play::Action;
use crate::play::ActionId;
use crate::play::Play;
use crate::player::PlayerId;
use vstd::prelude::*;

verus! {

/// One seat: its protection flag and the cards it holds, oldest first.
pub struct PlayerModel {
    pub protected: bool,
    pub hand: Seq<Card>,
}

/// The table: every seat, the shuffled deck, how many of its cards were
/// drawn, and whose turn it is.
pub struct GameModel {
    pub players: Seq<PlayerModel>,
    pub played_card_count: usize,
    pub players_turn: PlayerId,
    pub deck: Seq<Card>,
}

/// An entry that everybody may read in full.
pub open spec fn public_entry(event: EventView) -> EntryView {
    EntryView { visibility: EventVisibility::Public, event }
}

/// An entry whose card only `owner` may read.
pub open spec fn private_entry(owner: PlayerId, event: EventView) -> EntryView {
    EntryView { visibility: EventVisibility::Private(owner), event }
}

impl GameModel {
    /// A seat is active while it holds a card.
    pub open spec fn active(self, seat: int) -> bool {
        0 <= seat < self.players.len() && self.players[seat].hand.len() > 0
    }

    /// An active seat that is not the mover's.
    pub open spec fn other_active(self, seat: int) -> bool {
        self.active(seat) && seat != self.players_turn
    }

    /// Every other active seat is protected.
    pub open spec fn all_protected(self) -> bool {
        forall|seat: int| #[trigger] self.other_active(seat) ==> self.players[seat].protected
    }

    pub open spec fn active_seats(self) -> Set<PlayerId> {
        Set::new(|seat: PlayerId| self.active(seat as int))
    }

    pub open spec fn other_seats(self) -> Set<PlayerId> {
        Set::new(|seat: PlayerId| seat < self.players.len() && seat != self.players_turn)
    }

    pub open spec fn other_active_seats(self) -> Set<PlayerId> {
        Set::new(|seat: PlayerId| self.other_active(seat as int))
    }

    /// No two different seats are active.
    pub open spec fn at_most_one_active(self) -> bool {
        forall|a: int, b: int| #![trigger self.active(a), self.active(b)]
            self.active(a) && self.active(b) ==> a == b
    }

    /// The cards of the deck not drawn yet, the reserve card included.
    pub open spec fn remaining(self) -> int {
        self.deck.len() - self.played_card_count
    }

    /// The round is over when only the reserve card is left to draw, or when
    /// at most one seat is active.
    pub open spec fn game_over(self) -> bool {
        self.remaining() <= 1 || self.at_most_one_active()
    }

    /// The invariant of a round: the mover's seat exists, the seats can be
    /// counted by the machine, no more cards were drawn than the deck has,
    /// every seat but the mover's holds at most one card, and the mover
    /// holds two while the round is on.
    pub open spec fn wf(self) -> bool {
        &&& self.players_turn < self.players.len() <= usize::MAX
        &&& self.played_card_count <= self.deck.len()
        &&& forall|seat: int|
            0 <= seat < self.players.len() && seat != self.players_turn
                ==> (#[trigger] self.players[seat]).hand.len() <= 1
        &&& self.players[self.players_turn as int].hand.len() <= 2
        &&& !self.game_over() ==> self.players[self.players_turn as int].hand.len() == 2
    }

    /// Whether the mover may lay `play` on the table.
    pub open spec fn is_valid_play(self, play: Play) -> bool {
        let hand = self.players[self.players_turn as int].hand;
        &&& self.players_turn < self.players.len()
        &&& hand.contains(play.card)
        &&& !(hand.contains(Card::Countess) && (play.card == Card::Prince || play.card
            == Card::King))
        &&& (if play.card.wants_opponent() && !self.all_protected() {
            play.opponent is Some
        } else {
            play.opponent is None
        })
        &&& (if play.card.wants_guess() && !self.all_protected() {
            play.guess is Some && play.guess->0.is_guessable()
        } else {
            play.guess is None
        })
        &&& (play.opponent is Some ==> self.other_active(play.opponent->0 as int))
    }

    /// Whether the mover may submit `action`. Nothing is legal once the round
    /// is over; giving up is legal as long as it is not.
    pub open spec fn is_valid(self, action: Action) -> bool {
        !self.game_over() && match action {
            Action::GiveUp => true,
            Action::Play(play) => self.is_valid_play(play),
        }
    }

    /// The `k`-th choice of opponent: the seats in order, then nobody.
    pub open spec fn opponent_choice(self, k: int) -> Option<PlayerId> {
        if 0 <= k < self.players.len() {
            Some(k as usize)
        } else {
            None
        }
    }

    /// The play made of the `c`-th rank, the `o`-th choice of opponent and
    /// the `g`-th choice of guess.
    pub open spec fn candidate(self, c: int, o: int, g: int) -> Action {
        Action::Play(
            Play { card: all_ranks()[c], opponent: self.opponent_choice(o), guess: guess_choice(g) },
        )
    }

    /// The plays of the `c`-th rank against the `o`-th choice of opponent:
    /// one for each choice of guess, in order.
    pub open spec fn possible_guesses(self, c: int, o: int) -> Seq<Action> {
        guesses_with(all_ranks()[c], self.opponent_choice(o))
    }

    /// The plays of the `c`-th rank over the first `o` choices of opponent.
    pub open spec fn possible_opponents(self, c: int, o: int) -> Seq<Action>
        decreases o,
    {
        if o <= 0 {
            Seq::empty()
        } else {
            self.possible_opponents(c, o - 1) + self.possible_guesses(c, o - 1)
        }
    }

    /// The plays of the first `c` ranks.
    pub open spec fn possible_cards(self, c: int) -> Seq<Action>
        decreases c,
    {
        if c <= 0 {
            Seq::empty()
        } else {
            self.possible_cards(c - 1) + self.possible_opponents(
                c - 1,
                self.players.len() as int + 1,
            )
        }
    }

    /// Every play that could be written down at this table, legal or not:
    /// each rank, with each choice of opponent (the seats in order, then
    /// nobody), with each choice of guess (the guessable ranks in order, then
    /// none); the last choice varies fastest.
    pub open spec fn possible_actions(self) -> Seq<Action> {
        self.possible_cards(8)
    }

    /// The legal actions of the turn: giving up, then every possible play,
    /// less those that are not legal. Empty once the round is over.
    pub open spec fn legal_actions(self) -> Seq<Action> {
        (seq![Action::GiveUp] + self.possible_actions()).filter(
            |action: Action| self.is_valid(action),
        )
    }

    /// What the effect of `play` relies on once the card is on the table: the
    /// mover's seat exists; a seat aimed at exists, is not the mover's and
    /// holds a card; a Baron or a King aimed at a seat leaves the mover a
    /// card to compare or to hand over; a Prince aimed at a seat finds a card
    /// left in the deck.
    pub open spec fn supports(self, play: Play) -> bool {
        let mover = self.players_turn as int;
        let seat = play.opponent->0 as int;
        &&& mover < self.players.len()
        &&& play.opponent is Some ==> {
            &&& seat < self.players.len()
            &&& seat != mover
            &&& self.players[seat].hand.len() > 0
            &&& play.card == Card::Baron || play.card == Card::King
                ==> self.players[mover].hand.len() > 0
            &&& play.card == Card::Prince ==> self.played_card_count < self.deck.len()
        }
    }

    /// The table with the hand of `seat` replaced.
    pub open spec fn with_hand(self, seat: int, hand: Seq<Card>) -> GameModel {
        GameModel {
            players: self.players.update(
                seat,
                PlayerModel { protected: self.players[seat].protected, hand },
            ),
            ..self
        }
    }

    /// The table with the protection flag of `seat` replaced.
    pub open spec fn with_protected(self, seat: int, protected: bool) -> GameModel {
        GameModel {
            players: self.players.update(
                seat,
                PlayerModel { protected, hand: self.players[seat].hand },
            ),
            ..self
        }
    }

    /// The seat to the left of `seat`, wrapping round the table.
    pub open spec fn seat_after(self, seat: int) -> int {
        if seat + 1 < self.players.len() {
            seat + 1
        } else {
            0
        }
    }

    /// The first active seat met from `from` on, going round the table for at
    /// most `fuel` steps.
    pub open spec fn seek_active(self, from: int, fuel: nat) -> int
        decreases fuel,
    {
        if fuel == 0 || self.active(from) {
            from
        } else {
            self.seek_active(self.seat_after(from), (fuel - 1) as nat)
        }
    }

    /// The seat that moves next: the first active seat after the mover's.
    pub open spec fn next_mover(self) -> int {
        self.seek_active(self.seat_after(self.players_turn as int), self.players.len())
    }
}

/// The `k`-th choice of guess: the guessable ranks in order, then none.
pub open spec fn guess_choice(k: int) -> Option<Card> {
    if 0 <= k < 7 {
        Some(guessable_ranks()[k])
    } else {
        None
    }
}

/// The plays of `card` against `opponent`: one for each choice of guess, in
/// order.
pub open spec fn guesses_with(card: Card, opponent: Option<PlayerId>) -> Seq<Action> {
    Seq::new(8, |g: int| Action::Play(Play { card, opponent, guess: guess_choice(g) }))
}

/// The active seats below `upto`, in seat order.
pub open spec fn active_below(players: Seq<PlayerModel>, upto: int) -> Seq<PlayerId>
    decreases upto,
{
    if upto <= 0 {
        Seq::empty()
    } else if players[upto - 1].hand.len() > 0 {
        active_below(players, upto - 1).push((upto - 1) as usize)
    } else {
        active_below(players, upto - 1)
    }
}

/// The folds that end a round, for the seats below `upto` in order: each
/// active seat shows its first card.
pub open spec fn closing_folds(players: Seq<PlayerModel>, upto: int) -> Seq<EntryView>
    decreases upto,
{
    if upto <= 0 {
        Seq::empty()
    } else {
        let before = closing_folds(players, upto - 1);
        if players[upto - 1].hand.len() > 0 {
            before.push(
                public_entry(
                    EventView::Fold(
                        (upto - 1) as usize,
                        players[upto - 1].hand[0],
                        GAME_FINISHED@,
                    ),
                ),
            )
        } else {
            before
        }
    }
}

/// The highest value shown by an active seat below `upto`; 0 if none is active.
pub open spec fn best_rank(players: Seq<PlayerModel>, upto: int) -> int
    decreases upto,
{
    if upto <= 0 {
        0
    } else {
        let before = best_rank(players, upto - 1);
        if players[upto - 1].hand.len() > 0 && players[upto - 1].hand[0].rank() > before {
            players[upto - 1].hand[0].rank()
        } else {
            before
        }
    }
}

/// The active seats below `upto` whose first card has the value `rank`, in order.
pub open spec fn seats_showing(players: Seq<PlayerModel>, rank: int, upto: int) -> Seq<PlayerId>
    decreases upto,
{
    if upto <= 0 {
        Seq::empty()
    } else {
        let before = seats_showing(players, rank, upto - 1);
        if players[upto - 1].hand.len() > 0 && players[upto - 1].hand[0].rank() == rank {
            before.push((upto - 1) as usize)
        } else {
            before
        }
    }
}

/// The winners of a round: the active seats that show the highest value, in
/// seat order.
pub open spec fn winners(players: Seq<PlayerModel>) -> Seq<PlayerId> {
    seats_showing(players, best_rank(players, players.len() as int), players.len() as int)
}

/// A round in progress: the table and the log of what happened so far.
pub struct Round {
    pub game: GameModel,
    pub log: Seq<EntryView>,
}

impl Round {
    /// `seat` draws the next card of the deck; only `seat` learns which.
    pub open spec fn pick_up(self, seat: PlayerId) -> Round {
        let card = self.game.deck[self.game.played_card_count as int];
        let drawn = self.game.played_card_count + 1;
        let hand = self.game.players[seat as int].hand.push(card);
        Round {
            game: GameModel {
                played_card_count: drawn as usize,
                ..self.game.with_hand(seat as int, hand)
            },
            log: self.log.push(
                private_entry(
                    seat,
                    EventView::PickUp(seat, Some(card), (self.game.deck.len() - drawn) as usize),
                ),
            ),
        }
    }

    /// `seat` leaves the round: it folds its cards in public, the newest
    /// first, and drops out.
    pub open spec fn drop_player(self, seat: PlayerId, reason: Seq<char>) -> Round {
        let hand = self.game.players[seat as int].hand;
        let folds = Seq::new(
            hand.len(),
            |i: int| public_entry(EventView::Fold(seat, hand[hand.len() - 1 - i], reason)),
        );
        Round {
            game: self.game.with_hand(seat as int, Seq::empty()),
            log: (self.log + folds).push(public_entry(EventView::DropOut(seat))),
        }
    }

    /// The end of a round: each active seat shows its card, the winners are
    /// named, and the whole log becomes public.
    pub open spec fn wrap_up(self) -> Round {
        let players = self.game.players;
        let folds = closing_folds(players, players.len() as int);
        Round {
            game: self.game,
            log: published(
                (self.log + folds).push(public_entry(EventView::Winner(winners(players)))),
            ),
        }
    }

    /// The turn passes to the next active seat, which draws a card; if the
    /// round is over by then, it is wrapped up instead.
    pub open spec fn next_player_turn(self) -> Round {
        let seat = self.game.next_mover() as usize;
        let moved = Round { game: GameModel { players_turn: seat, ..self.game }, log: self.log };
        if moved.game.game_over() {
            moved.wrap_up()
        } else {
            moved.pick_up(seat)
        }
    }

    /// The effect of the card that the mover has just laid down; the mover
    /// holds what is left of its hand.
    pub open spec fn resolve(self, play: Play) -> Round {
        let mover = self.game.players_turn;
        let mine = self.game.players[mover as int].hand;
        match play.card {
            Card::Guard => if play.opponent is Some && play.guess is Some
                && self.game.players[play.opponent->0 as int].hand[0] == play.guess->0 {
                self.drop_player(play.opponent->0, GUESSED@)
            } else {
                self
            },
            Card::Priest => match play.opponent {
                Some(seat) => Round {
                    game: self.game,
                    log: self.log.push(
                        private_entry(
                            mover,
                            EventView::LearnedCard(
                                seat,
                                Some(self.game.players[seat as int].hand[0]),
                            ),
                        ),
                    ),
                },
                None => self,
            },
            Card::Baron => match play.opponent {
                Some(seat) => {
                    let theirs = self.game.players[seat as int].hand[0];
                    if theirs.rank() < mine[0].rank() {
                        self.drop_player(seat, SMALLER_CARD@)
                    } else if mine[0].rank() < theirs.rank() {
                        self.drop_player(mover, SMALLER_CARD@)
                    } else {
                        self
                    }
                },
                None => self,
            },
            Card::Maid => Round {
                game: self.game.with_protected(mover as int, true),
                log: self.log,
            },
            Card::Prince => match play.opponent {
                Some(seat) => {
                    let theirs = self.game.players[seat as int].hand;
                    if theirs[0] == Card::Princess {
                        self.drop_player(seat, FORCED_TO_PLAY@)
                    } else {
                        Round {
                            game: self.game.with_hand(seat as int, theirs.drop_last()),
                            log: self.log.push(
                                public_entry(
                                    EventView::Fold(
                                        seat,
                                        theirs.last(),
                                        FORCED_BY_PRINCE@,
                                    ),
                                ),
                            ),
                        }.pick_up(seat)
                    }
                },
                None => self,
            },
            Card::King => match play.opponent {
                Some(seat) => {
                    let theirs = self.game.players[seat as int].hand;
                    Round {
                        game: self.game.with_hand(
                            seat as int,
                            theirs.drop_last().push(mine.last()),
                        ).with_hand(mover as int, mine.drop_last().push(theirs.last())),
                        log: self.log,
                    }
                },
                None => self,
            },
            Card::Countess => self,
            Card::Princess => self.drop_player(
                mover,
                PLAYED_PRINCESS@,
            ),
        }
    }

    /// The mover lays `play` on the table: the card leaves the hand and is
    /// announced; a mover who aims at a protected seat, while some other seat
    /// is not protected, drops out instead of having the effect; otherwise the
    /// mover's own protection ends and the card takes effect.
    pub open spec fn handle_play(self, play: Play) -> Round {
        let mover = self.game.players_turn;
        let hand = self.game.players[mover as int].hand;
        let laid = Round {
            game: self.game.with_hand(mover as int, hand.remove_value(play.card)),
            log: self.log.push(public_entry(EventView::Play(mover, play))),
        };
        if play.opponent is Some && laid.game.players[play.opponent->0 as int].protected
            && !laid.game.all_protected() {
            laid.drop_player(mover, ATTACKED_PROTECTED@)
        } else {
            Round {
                game: laid.game.with_protected(mover as int, false),
                log: laid.log,
            }.resolve(play)
        }
    }

    /// The mover submits the `index`-th legal action. An index outside the
    /// list changes nothing; otherwise the action is carried out and the turn
    /// passes on.
    pub open spec fn handle_action(self, index: ActionId) -> Round {
        let actions = self.game.legal_actions();
        if index < actions.len() {
            match actions[index as int] {
                Action::GiveUp => self.drop_player(
                    self.game.players_turn,
                    GAVE_UP@,
                ).next_player_turn(),
                Action::Play(play) => self.handle_play(play).next_player_turn(),
            }
        } else {
            self
        }
    }

    /// The round after the answers of `answers` were submitted one after the
    /// other.
    pub open spec fn played(self, answers: Seq<ActionId>) -> Round
        decreases answers.len(),
    {
        if answers.len() == 0 {
            self
        } else {
            self.played(answers.drop_last()).handle_action(answers.last())
        }
    }
}

/// The start of a round at a table of `seats` seats: each seat draws one card
/// in turn, then the first seat draws a second.
pub open spec fn opening(seats: int, deck: Seq<Card>, log: Seq<EntryView>) -> Round {
    Round {
        game: GameModel {
            players: Seq::new(
                seats as nat,
                |seat: int|
                    PlayerModel {
                        protected: false,
                        hand: if seat == 0 {
                            seq![deck[0], deck[seats]]
                        } else {
                            seq![deck[seat]]
                        },
                    },
            ),
            played_card_count: (seats + 1) as usize,
            players_turn: 0,
            deck,
        },
        log: log + Seq::new(
            (seats + 1) as nat,
            |i: int|
                {
                    let seat = if i < seats {
                        i as usize
                    } else {
                        0
                    };
                    private_entry(
                        seat,
                        EventView::PickUp(seat, Some(deck[i]), (deck.len() - (i + 1)) as usize),
                    )
                },
        ),
    }
}

} // verus!
