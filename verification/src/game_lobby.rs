//! The table before and during a round: who sits where, and the
//! conversation between the engine and the players, turn by turn.

use crate::card::Card;
use crate::card::standard_deck;
use crate::chance::shuffle;
use crate::event::EntryView;
use crate::event::Event;
use crate::event::EventEntry;
use crate::event::entries;
use crate::event::events;
use crate::event::project;
use crate::game_state::GameState;
use crate::game_state::table;
use crate::laws::lemma_give_up_is_legal;
use crate::model::Round;
use crate::model::opening;
use crate::play::Action;
use crate::play::ActionId;
use crate::player::Player;
use crate::player::goes_by;
use rand::rngs::ThreadRng;
use vstd::prelude::*;

verus! {

/// The players of a table, in seat order.
pub struct GameLobby<P: Player> {
    players: Vec<P>,
}

/// A full deck in an order that is up to chance: the cards of the standard
/// deck, each as often as there.
pub fn shuffled_deck(rng: &mut ThreadRng) -> (deck: Vec<Card>)
    ensures
        deck@.to_multiset() == standard_deck().to_multiset(),
        deck@.len() == 16,
{
    let mut deck = Card::deck();
    shuffle(&mut deck, rng);
    proof {
        deck@.to_multiset_ensures();
        standard_deck().to_multiset_ensures();
    }
    deck
}

impl<P: Player> GameLobby<P> {
    /// The players, in seat order.
    pub closed spec fn seats(&self) -> Seq<P> {
        self.players@
    }

    /// A table with nobody seated.
    pub fn new() -> (lobby: Self)
        ensures
            lobby.seats() == Seq::<P>::empty(),
    {
        GameLobby { players: Vec::new() }
    }

    /// Seats the player that `player_constructor` makes behind those that
    /// sit already.
    pub fn add_player<C>(&mut self, player_constructor: C) where C: FnOnce() -> P
        requires
            player_constructor.requires(()),
        ensures
            final(self).seats().len() == old(self).seats().len() + 1,
            player_constructor.ensures((), final(self).seats().last()),
            final(self).seats() == old(self).seats().push(final(self).seats().last()),
    {
        let player = player_constructor();
        self.players.push(player);
    }

    /// Seats `player` behind those that sit already.
    pub fn seat_player(&mut self, player: P)
        ensures
            final(self).seats() == old(self).seats().push(player),
    {
        self.players.push(player);
    }

    /// How many players sit at the table.
    pub fn player_count(&self) -> (count: usize)
        ensures
            count == self.seats().len(),
    {
        self.players.len()
    }

    /// The names of the players, in seat order: for each seat the name in
    /// the data that its player hands out.
    pub fn player_names(&self) -> (names: Vec<&String>)
        ensures
            names@.len() == self.seats().len(),
            forall|seat: int|
                0 <= seat < names@.len() ==> goes_by(
                    &self.seats()[seat],
                    (#[trigger] names@[seat])@,
                ),
    {
        let mut names: Vec<&String> = Vec::new();
        let mut i: usize = 0;
        while i < self.players.len()
            invariant
                i <= self.players.len(),
                names@.len() == i,
                forall|seat: int|
                    0 <= seat < i ==> goes_by(&self.players@[seat], (#[trigger] names@[seat])@),
            decreases self.players.len() - i,
        {
            names.push(self.players[i].name());
            i += 1;
        }
        names
    }

    /// Seats the players anew, in an order that is up to chance. Nobody is
    /// added and nobody leaves.
    pub fn shuffle_seats(&mut self, rng: &mut ThreadRng)
        ensures
            final(self).seats().to_multiset() == old(self).seats().to_multiset(),
            final(self).seats().len() == old(self).seats().len(),
    {
        let ghost before = self.players@;
        shuffle(&mut self.players, rng);
        proof {
            before.to_multiset_ensures();
            self.players@.to_multiset_ensures();
        }
    }

    /// What a player is handed when it is asked to choose, and what it
    /// answered: the names of all seats, the mover's view of the log, the
    /// legal actions of the turn, and an answer that the mover's
    /// `obtain_action` may give to these.
    pub open spec fn asked(
        &self,
        round: Round,
        names: &[&String],
        seen: &[Event],
        actions: &[Action],
        chosen: ActionId,
    ) -> bool {
        let mover = round.game.players_turn;
        &&& names@.len() == self.seats().len()
        &&& forall|seat: int|
            0 <= seat < names@.len() ==> goes_by(&self.seats()[seat], (#[trigger] names@[seat])@)
        &&& events(seen@) == project(round.log, Some(mover))
        &&& actions@ == round.game.legal_actions()
        &&& call_ensures(
            P::obtain_action,
            (&self.seats()[mover as int], names, seen, actions),
            chosen,
        )
    }

    /// Whether `chosen` is an answer that the mover of `round` may give when
    /// it is asked in the way of `asked`.
    pub open spec fn may_answer(&self, round: Round, chosen: ActionId) -> bool {
        exists|names: &[&String], seen: &[Event], actions: &[Action]| #[trigger]
            self.asked(round, names, seen, actions, chosen)
    }

    /// Whether `answers` are answers that the movers may give one after the
    /// other, from `round` on: each is given while the round is on, by the
    /// mover of the round that the answers before it have made.
    pub open spec fn answered(&self, round: Round, answers: Seq<ActionId>) -> bool
        decreases answers.len(),
    {
        answers.len() == 0 || {
            let before = round.played(answers.drop_last());
            &&& self.answered(round, answers.drop_last())
            &&& !before.game.game_over()
            &&& self.may_answer(before, answers.last())
        }
    }

    /// One turn of a round. If the round is over, nothing happens and the
    /// answer is `false`. Otherwise the mover is shown the names of all
    /// seats, its view of the log and the legal actions, and is asked to
    /// choose; the answer is handed to the engine, which carries it out, or
    /// ignores it if it is no index into the legal actions; then every player
    /// is told what it may see of the log, and the answer is `true`.
    pub fn play_turn(&self, state: &mut GameState<'_>, log: &mut Vec<EventEntry>) -> (played: bool)
        requires
            old(state)@.wf(),
            old(state)@.players.len() == self.seats().len(),
        ensures
            played == !old(state)@.game_over(),
            !played ==> final(state)@ == old(state)@ && final(log)@ == old(log)@,
            played ==> exists|chosen: ActionId|
                {
                    &&& #[trigger] self.may_answer(table(old(state)@, old(log)@), chosen)
                    &&& table(final(state)@, final(log)@) == table(
                        old(state)@,
                        old(log)@,
                    ).handle_action(chosen)
                },
            final(state)@.wf(),
            final(state)@.players.len() == self.seats().len(),
            final(state)@.deck == old(state)@.deck,
    {
        let (mover, actions) = state.valid_actions();
        match mover {
            None => false,
            Some(seat) => {
                proof {
                    lemma_give_up_is_legal(state@);
                }
                let names = self.player_names();
                let seen = GameState::filter_event(log.as_slice(), mover);
                let who = names.as_slice();
                let what = seen.as_slice();
                let offer = actions.as_slice();
                let chosen = self.players[seat].obtain_action(who, what, offer);
                let ghost before = table(state@, log@);
                assert(self.may_answer(before, chosen)) by {
                    assert(self.asked(before, who, what, offer, chosen));
                }
                state.handle_action(chosen, log);
                let mut i: usize = 0;
                while i < self.players.len()
                    invariant
                        i <= self.players.len(),
                    decreases self.players.len() - i,
                {
                    let seen = GameState::filter_event(log.as_slice(), Some(i));
                    self.players[i].notify(seen.as_slice(), who);
                    i += 1;
                }
                true
            },
        }
    }

    /// Plays turn after turn until the round is over, but no more than
    /// `turns` turns; an answer that is no index into the legal actions uses
    /// up a turn like any other. Says whether the round is over.
    pub fn play_turns(
        &self,
        state: &mut GameState<'_>,
        log: &mut Vec<EventEntry>,
        turns: usize,
    ) -> (over: bool)
        requires
            old(state)@.wf(),
            old(state)@.players.len() == self.seats().len(),
        ensures
            over == final(state)@.game_over(),
            exists|answers: Seq<ActionId>|
                {
                    &&& answers.len() <= turns
                    &&& over || answers.len() == turns
                    &&& #[trigger] self.answered(table(old(state)@, old(log)@), answers)
                    &&& table(final(state)@, final(log)@) == table(
                        old(state)@,
                        old(log)@,
                    ).played(answers)
                },
            final(state)@.wf(),
            final(state)@.players.len() == self.seats().len(),
            final(state)@.deck == old(state)@.deck,
    {
        let ghost begun = table(state@, log@);
        let ghost mut answers: Seq<ActionId> = Seq::empty();
        let mut left = turns;
        while left > 0
            invariant
                begun == table(old(state)@, old(log)@),
                state@.wf(),
                state@.players.len() == self.seats().len(),
                state@.deck == begun.game.deck,
                left <= turns,
                answers.len() == turns - left,
                self.answered(begun, answers),
                table(state@, log@) == begun.played(answers),
            decreases left,
        {
            let ghost before = table(state@, log@);
            if !self.play_turn(state, log) {
                return true;
            }
            proof {
                let chosen = choose|chosen: ActionId|
                    #[trigger] self.may_answer(before, chosen) && table(state@, log@)
                        == before.handle_action(chosen);
                assert(answers.push(chosen).drop_last() =~= answers);
                answers = answers.push(chosen);
            }
            left -= 1;
        }
        state.game_over()
    }

    /// Plays a round: shuffles deck and seats, deals, and lets the players
    /// take turns until the round is over, or until `turns` turns were
    /// played. Hands back the log of the round.
    pub fn play_round(&mut self, turns: usize) -> (log: Vec<EventEntry>)
        requires
            1 <= old(self).seats().len() < 16,
        ensures
            final(self).seats().to_multiset() == old(self).seats().to_multiset(),
            exists|deck: Seq<Card>, answers: Seq<ActionId>|
                {
                    let end = #[trigger] opening(
                        old(self).seats().len() as int,
                        deck,
                        Seq::empty(),
                    ).played(answers);
                    &&& deck.to_multiset() == standard_deck().to_multiset()
                    &&& answers.len() <= turns
                    &&& end.game.game_over() || answers.len() == turns
                    &&& final(self).answered(
                        opening(old(self).seats().len() as int, deck, Seq::empty()),
                        answers,
                    )
                    &&& entries(log@) == end.log
                },
    {
        let mut rng = rand::thread_rng();
        let deck = shuffled_deck(&mut rng);
        self.shuffle_seats(&mut rng);
        let mut log: Vec<EventEntry> = Vec::new();
        let mut state = GameState::new(self.player_count(), deck.as_slice(), &mut log);
        let ghost begun = table(state@, log@);
        self.play_turns(&mut state, &mut log, turns);
        proof {
            assert(entries(Seq::<EventEntry>::empty()) =~= Seq::<EntryView>::empty());
            let answers = choose|answers: Seq<ActionId>|
                {
                    &&& answers.len() <= turns
                    &&& state@.game_over() || answers.len() == turns
                    &&& #[trigger] self.answered(begun, answers)
                    &&& table(state@, log@) == begun.played(answers)
                };
            assert(begun == opening(old(self).seats().len() as int, deck@, Seq::empty()));
        }
        log
    }
}

} // verus!
