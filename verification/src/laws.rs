//! What holds of every round: the invariant of the table, what the list of
//! legal actions contains, what is kept from whom, and what Baron and King do.

use crate::card::Card;
use crate::card::guessable_ranks;
use crate::card::lemma_guessable_ranks;
use crate::event::EntryView;
use crate::event::EventView;
use crate::event::EventVisibility;
use crate::event::GAVE_UP;
use crate::event::SMALLER_CARD;
use crate::event::lemma_project_published;
use crate::event::project;
use crate::model::GameModel;
use crate::model::PlayerModel;
use crate::model::Round;
use crate::event::GAME_FINISHED;
use crate::model::active_below;
use crate::model::best_rank;
use crate::model::closing_folds;
use crate::model::opening;
use crate::model::public_entry;
use crate::model::seats_showing;
use crate::model::winners;
use crate::play::Action;
use crate::play::ActionId;
use crate::play::Play;
use crate::player::PlayerId;
use vstd::prelude::*;

verus! {

impl GameModel {
    /// The table between two turns: the mover's seat exists, no more cards
    /// were drawn than the deck has, and no seat holds more than one card.
    pub open spec fn settled(self) -> bool {
        &&& self.players_turn < self.players.len() <= usize::MAX
        &&& self.played_card_count <= self.deck.len()
        &&& forall|seat: int|
            0 <= seat < self.players.len() ==> (#[trigger] self.players[seat]).hand.len() <= 1
    }

    /// The number of steps round the table from `from` to `to`.
    pub open spec fn distance(self, from: int, to: int) -> int {
        if to >= from {
            to - from
        } else {
            to + self.players.len() - from
        }
    }
}

/// While a round is on, it is the turn of an active seat, which holds two
/// cards, and at least two cards are left in the deck.
pub proof fn lemma_mover_is_active(game: GameModel)
    requires
        game.wf(),
        !game.game_over(),
    ensures
        game.active(game.players_turn as int),
        game.players[game.players_turn as int].hand.len() == 2,
        game.remaining() >= 2,
{
}

/// Going round the table from an existing seat stays among the seats, and
/// stops at an active seat if there is one within reach.
pub proof fn lemma_seek_active(game: GameModel, from: int, fuel: nat, goal: int)
    requires
        0 <= from < game.players.len(),
    ensures
        0 <= game.seek_active(from, fuel) < game.players.len(),
        game.active(goal) && game.distance(from, goal) < fuel ==> game.active(
            game.seek_active(from, fuel),
        ),
    decreases fuel,
{
    if fuel > 0 && !game.active(from) {
        lemma_seek_active(game, game.seat_after(from), (fuel - 1) as nat, goal);
    }
}

/// The seat that moves next is the nearest active seat after the mover's,
/// going round the table: no active seat is fewer steps away from the seat
/// behind the mover's. With several seats active it is not the mover's.
pub proof fn lemma_next_mover(game: GameModel)
    requires
        game.players_turn < game.players.len(),
    ensures
        0 <= game.next_mover() < game.players.len(),
        (exists|seat: int| game.active(seat)) ==> game.active(game.next_mover()),
        forall|seat: int| #[trigger]
            game.active(seat) ==> game.distance(
                game.seat_after(game.players_turn as int),
                game.next_mover(),
            ) <= game.distance(game.seat_after(game.players_turn as int), seat),
        !game.at_most_one_active() ==> game.next_mover() != game.players_turn,
{
    let from = game.seat_after(game.players_turn as int);
    let seats = game.players.len();
    lemma_seek_active(game, from, seats, 0);
    if exists|seat: int| game.active(seat) {
        let seat = choose|seat: int| game.active(seat);
        lemma_seek_active(game, from, seats, seat);
    }
    assert forall|seat: int| #[trigger] game.active(seat) implies game.distance(
        from,
        game.next_mover(),
    ) <= game.distance(from, seat) by {
        if game.distance(from, seat) < game.distance(from, game.next_mover()) {
            lemma_seek_stops_before(game, from, seats, seat, game.next_mover());
        }
    }
    if !game.at_most_one_active() {
        let (a, b) = choose|a: int, b: int| game.active(a) && game.active(b) && a != b;
        let other = if a == game.players_turn {
            b
        } else {
            a
        };
        lemma_seek_stops_before(game, from, seats, other, game.players_turn as int);
    }
}

/// Going round the table stops at the first active seat: it does not reach
/// a seat that lies behind an active one.
pub proof fn lemma_seek_stops_before(game: GameModel, from: int, fuel: nat, near: int, far: int)
    requires
        0 <= from < game.players.len(),
        0 <= far < game.players.len(),
        game.active(near),
        game.distance(from, near) < game.distance(from, far),
        game.distance(from, near) < fuel,
    ensures
        game.seek_active(from, fuel) != far,
    decreases fuel,
{
    if fuel > 0 && !game.active(from) {
        lemma_seek_stops_before(game, game.seat_after(from), (fuel - 1) as nat, near, far);
    }
}

/// Passing the turn at a settled table gives a table that meets the
/// invariant of a round.
pub proof fn lemma_next_player_turn_wf(round: Round)
    requires
        round.game.settled(),
    ensures
        round.next_player_turn().game.wf(),
        round.next_player_turn().game.players.len() == round.game.players.len(),
        round.next_player_turn().game.deck == round.game.deck,
{
    let game = round.game;
    lemma_next_mover(game);
    let seat = game.next_mover() as usize;
    let moved = GameModel { players_turn: seat, ..game };
    assert(forall|s: int| moved.active(s) == game.active(s));
    if !moved.game_over() {
        let (a, b) = choose|a: int, b: int| moved.active(a) && moved.active(b) && a != b;
        assert(game.active(a));
        let after = round.next_player_turn().game;
        assert(after.players[seat as int].hand.len() == 2);
    }
}

/// Removing a card that is in the hand makes the hand one card shorter.
pub proof fn lemma_remove_value(hand: Seq<Card>, card: Card)
    requires
        hand.contains(card),
    ensures
        hand.remove_value(card).len() == hand.len() - 1,
        hand.len() == 2 ==> hand.remove_value(card) == if hand[0] == card {
            seq![hand[1]]
        } else {
            seq![hand[0]]
        },
{
    hand.index_of_first_ensures(card);
    let at = hand.index_of_first(card)->0;
    hand.remove_ensures(at);
    if hand.len() == 2 {
        if hand[0] == card {
            assert(at == 0);
            assert(hand.remove(at) =~= seq![hand[1]]);
        } else {
            assert(at == 1);
            assert(hand.remove(at) =~= seq![hand[0]]);
        }
    }
}

/// Laying a legal play leaves a settled table with the same seats, mover and deck.
pub proof fn lemma_handle_play_settles(round: Round, play: Play)
    requires
        round.game.wf(),
        round.game.is_valid(Action::Play(play)),
    ensures
        round.handle_play(play).game.settled(),
        round.handle_play(play).game.players.len() == round.game.players.len(),
        round.handle_play(play).game.players_turn == round.game.players_turn,
        round.handle_play(play).game.deck == round.game.deck,
{
    let game = round.game;
    let mover = game.players_turn as int;
    lemma_mover_is_active(game);
    lemma_remove_value(game.players[mover].hand, play.card);
}

/// Giving up leaves a settled table with the same seats, mover and deck.
pub proof fn lemma_give_up_settles(round: Round, reason: Seq<char>)
    requires
        round.game.wf(),
    ensures
        round.drop_player(round.game.players_turn, reason).game.settled(),
        round.drop_player(round.game.players_turn, reason).game.players.len()
            == round.game.players.len(),
{
}

/// Every legal action is valid, and every valid action is legal: the list
/// offered to the mover holds exactly the actions that pass the rules.
pub proof fn lemma_legal_actions(game: GameModel, action: Action)
    ensures
        game.legal_actions().contains(action) <==> game.is_valid(action),
{
    let every = seq![Action::GiveUp] + game.possible_actions();
    let legal = |a: Action| game.is_valid(a);
    if game.legal_actions().contains(action) {
        let i = choose|i: int| 0 <= i < every.filter(legal).len() && every.filter(legal)[i] == action;
        every.lemma_filter_pred(legal, i);
    }
    if game.is_valid(action) {
        match action {
            Action::GiveUp => {
                assert(every[0] == action);
                every.lemma_filter_contains(legal, 0);
            },
            Action::Play(play) => {
                lemma_possible_actions(game, play);
                let at = choose|i: int|
                    0 <= i < game.possible_actions().len() && game.possible_actions()[i] == action;
                assert(every[at + 1] == action);
                every.lemma_filter_contains(legal, at + 1);
            },
        }
    }
}

/// Every play that aims at nobody or at an existing seat, and guesses
/// nothing or a guessable rank, is among the possible plays.
pub proof fn lemma_possible_actions(game: GameModel, play: Play)
    requires
        play.opponent is Some ==> play.opponent->0 < game.players.len(),
        play.guess is Some ==> play.guess->0.is_guessable(),
    ensures
        game.possible_actions().contains(Action::Play(play)),
{
    let c = play.card.rank() - 1;
    let o = match play.opponent {
        Some(seat) => seat as int,
        None => game.players.len() as int,
    };
    let g = match play.guess {
        Some(card) => card.rank() - 2,
        None => 7,
    };
    lemma_guessable_ranks(play.card);
    if play.guess is Some {
        lemma_guessable_ranks(play.guess->0);
        assert(guessable_ranks()[g] == play.guess->0);
    }
    assert(game.candidate(c, o, g) == Action::Play(play));
    lemma_possible_cards(game, 8, c, o, g);
}

/// The plays of the first `upto` choices of opponent hold every candidate
/// among them.
pub proof fn lemma_possible_opponents(game: GameModel, c: int, upto: int, o: int, g: int)
    requires
        0 <= o < upto,
        0 <= g < 8,
    ensures
        game.possible_opponents(c, upto).contains(game.candidate(c, o, g)),
    decreases upto,
{
    let before = game.possible_opponents(c, upto - 1);
    let block = game.possible_guesses(c, upto - 1);
    if o == upto - 1 {
        assert((before + block)[before.len() + g] == game.candidate(c, o, g));
    } else {
        lemma_possible_opponents(game, c, upto - 1, o, g);
        let at = choose|i: int| 0 <= i < before.len() && before[i] == game.candidate(c, o, g);
        assert((before + block)[at] == game.candidate(c, o, g));
    }
}

/// The plays of the first `upto` ranks hold every candidate among them.
pub proof fn lemma_possible_cards(game: GameModel, upto: int, c: int, o: int, g: int)
    requires
        0 <= c < upto,
        0 <= o <= game.players.len(),
        0 <= g < 8,
    ensures
        game.possible_cards(upto).contains(game.candidate(c, o, g)),
    decreases upto,
{
    let before = game.possible_cards(upto - 1);
    let block = game.possible_opponents(upto - 1, game.players.len() as int + 1);
    if c == upto - 1 {
        lemma_possible_opponents(game, c, game.players.len() as int + 1, o, g);
        let at = choose|i: int| 0 <= i < block.len() && block[i] == game.candidate(c, o, g);
        assert((before + block)[before.len() + at] == game.candidate(c, o, g));
    } else {
        lemma_possible_cards(game, upto - 1, c, o, g);
        let at = choose|i: int| 0 <= i < before.len() && before[i] == game.candidate(c, o, g);
        assert((before + block)[at] == game.candidate(c, o, g));
    }
}

/// Filtering a sequence of one item keeps the item or nothing.
pub proof fn lemma_filter_single(action: Action, legal: spec_fn(Action) -> bool)
    ensures
        seq![action].filter(legal) == if legal(action) {
            seq![action]
        } else {
            Seq::<Action>::empty()
        },
{
    reveal_with_fuel(Seq::filter, 2);
    let single = seq![action];
    assert(single.drop_last() =~= Seq::<Action>::empty());
    if legal(action) {
        assert(single.filter(legal) =~= single);
    } else {
        assert(single.filter(legal) =~= Seq::<Action>::empty());
    }
}

/// While the round is on, giving up is on offer, and it comes first; once
/// the round is over, nothing is.
pub proof fn lemma_give_up_is_legal(game: GameModel)
    ensures
        !game.game_over() ==> game.legal_actions().len() > 0 && game.legal_actions()[0]
            == Action::GiveUp && game.legal_actions().contains(Action::GiveUp),
        game.game_over() ==> game.legal_actions().len() == 0,
{
    let legal = |a: Action| game.is_valid(a);
    let first = seq![Action::GiveUp];
    let plays = game.possible_actions();
    let offered = (first + plays).filter(legal);
    Seq::filter_distributes_over_add(first, plays, legal);
    lemma_filter_single(Action::GiveUp, legal);
    if game.game_over() {
        if offered.len() > 0 {
            (first + plays).lemma_filter_pred(legal, 0);
        }
    } else {
        assert(offered[0] == Action::GiveUp);
    }
}

/// A play on offer names a card that the mover holds, and never the Prince
/// or the King while the mover holds the Countess.
pub proof fn lemma_legal_play(game: GameModel, i: int)
    requires
        0 <= i < game.legal_actions().len(),
    ensures
        game.is_valid(game.legal_actions()[i]),
        game.legal_actions()[i] matches Action::Play(play) ==> {
            let hand = game.players[game.players_turn as int].hand;
            &&& hand.contains(play.card)
            &&& hand.contains(Card::Countess) ==> play.card != Card::Prince && play.card
                != Card::King
        },
{
    lemma_legal_actions(game, game.legal_actions()[i]);
}

/// Carrying out an action keeps the invariant of a round; so every table
/// that a round reaches meets it.
pub proof fn lemma_handle_action_wf(round: Round, index: ActionId)
    requires
        round.game.wf(),
    ensures
        round.handle_action(index).game.wf(),
        round.handle_action(index).game.players.len() == round.game.players.len(),
        round.handle_action(index).game.deck == round.game.deck,
{
    let actions = round.game.legal_actions();
    if index < actions.len() {
        lemma_legal_play(round.game, index as int);
        match actions[index as int] {
            Action::GiveUp => {
                let dropped = round.drop_player(round.game.players_turn, GAVE_UP@);
                lemma_give_up_settles(round, GAVE_UP@);
                lemma_next_player_turn_wf(dropped);
            },
            Action::Play(play) => {
                lemma_handle_play_settles(round, play);
                lemma_next_player_turn_wf(round.handle_play(play));
            },
        }
    }
}

/// A round opens with a table that meets the invariant of a round.
pub proof fn lemma_opening_wf(seats: int, deck: Seq<Card>, log: Seq<EntryView>)
    requires
        1 <= seats < deck.len(),
        seats < usize::MAX,
    ensures
        opening(seats, deck, log).game.wf(),
        opening(seats, deck, log).game.remaining() == deck.len() - seats - 1,
{
}

/// Every table that a round can reach, whatever the players answer, meets
/// the invariant of a round; and as long as the round is not over, it is the
/// turn of an active seat.
pub proof fn lemma_reachable_wf(
    seats: int,
    deck: Seq<Card>,
    log: Seq<EntryView>,
    answers: Seq<ActionId>,
)
    requires
        1 <= seats < deck.len(),
        seats < usize::MAX,
    ensures
        opening(seats, deck, log).played(answers).game.wf(),
        !opening(seats, deck, log).played(answers).game.game_over() ==> opening(
            seats,
            deck,
            log,
        ).played(answers).game.active(
            opening(seats, deck, log).played(answers).game.players_turn as int,
        ),
    decreases answers.len(),
{
    if answers.len() == 0 {
        lemma_opening_wf(seats, deck, log);
    } else {
        lemma_reachable_wf(seats, deck, log, answers.drop_last());
        lemma_handle_action_wf(
            opening(seats, deck, log).played(answers.drop_last()),
            answers.last(),
        );
    }
}

/// All other seats count as protected exactly when every seat that is not
/// the mover's and holds a card has its protection flag set.
pub proof fn lemma_all_protected(game: GameModel)
    ensures
        game.all_protected() <==> forall|seat: int|
            0 <= seat < game.players.len() && seat != game.players_turn && (
            #[trigger] game.players[seat]).hand.len() > 0 ==> game.players[seat].protected,
{
    if game.all_protected() {
        assert forall|seat: int|
            0 <= seat < game.players.len() && seat != game.players_turn && (
            #[trigger] game.players[seat]).hand.len() > 0 implies game.players[seat].protected by {
            assert(game.other_active(seat));
        }
    }
}

/// Once a round is over no action is accepted: whatever is submitted, table
/// and log stay as they are.
pub proof fn lemma_terminal_is_final(round: Round, index: ActionId)
    requires
        round.game.game_over(),
    ensures
        round.handle_action(index) == round,
{
    lemma_give_up_is_legal(round.game);
}

/// Whether `after` continues `before`: it holds the events of `before` in
/// the same places, each as visible as before or public, and maybe more
/// behind them.
pub open spec fn continues(before: Seq<EntryView>, after: Seq<EntryView>) -> bool {
    &&& before.len() <= after.len()
    &&& forall|i: int|
        0 <= i < before.len() ==> (#[trigger] after[i]).event == before[i].event && (after[i].visibility
            == before[i].visibility || after[i].visibility == EventVisibility::Public)
}

/// The log is only ever appended to: an action leaves every event that was
/// logged where it was, and hides nothing that was visible.
pub proof fn lemma_log_continues(round: Round, index: ActionId)
    ensures
        continues(round.log, round.handle_action(index).log),
{
    let actions = round.game.legal_actions();
    if index < actions.len() {
        match actions[index as int] {
            Action::GiveUp => {
                let dropped = round.drop_player(round.game.players_turn, GAVE_UP@);
                assert(continues(round.log, dropped.log));
                lemma_next_player_turn_continues(dropped);
            },
            Action::Play(play) => {
                lemma_handle_play_continues(round, play);
                lemma_next_player_turn_continues(round.handle_play(play));
            },
        }
    }
}

/// Passing the turn continues the log.
pub proof fn lemma_next_player_turn_continues(round: Round)
    ensures
        continues(round.log, round.next_player_turn().log),
{
}

/// Laying a card continues the log.
pub proof fn lemma_handle_play_continues(round: Round, play: Play)
    ensures
        continues(round.log, round.handle_play(play).log),
{
    let mover = round.game.players_turn;
    let laid = Round {
        game: round.game.with_hand(
            mover as int,
            round.game.players[mover as int].hand.remove_value(play.card),
        ),
        log: round.log.push(public_entry(EventView::Play(mover, play))),
    };
    assert(continues(round.log, laid.log));
    let cleared = Round { game: laid.game.with_protected(mover as int, false), log: laid.log };
    assert(continues(laid.log, cleared.resolve(play).log));
}

/// The reserve card stays in the deck: an action that starts with a card
/// left to draw ends with a card left to draw.
pub proof fn lemma_reserve_card_stays(round: Round, index: ActionId)
    requires
        round.game.wf(),
        round.game.remaining() >= 1,
    ensures
        round.handle_action(index).game.remaining() >= 1,
{
    let actions = round.game.legal_actions();
    if index < actions.len() {
        lemma_legal_play(round.game, index as int);
        lemma_mover_is_active(round.game);
        match actions[index as int] {
            Action::GiveUp => {
                let dropped = round.drop_player(round.game.players_turn, GAVE_UP@);
                lemma_give_up_settles(round, GAVE_UP@);
                lemma_next_mover(dropped.game);
            },
            Action::Play(play) => {
                lemma_handle_play_settles(round, play);
                lemma_remove_value(round.game.players[round.game.players_turn as int].hand, play.card);
                lemma_next_mover(round.handle_play(play).game);
            },
        }
    }
}

/// The highest value shown below `upto` is at least the value shown by each
/// active seat there, and it is shown by one of them if any is active.
pub proof fn lemma_best_rank(players: Seq<PlayerModel>, upto: int)
    requires
        0 <= upto <= players.len(),
    ensures
        forall|seat: int|
            0 <= seat < upto && (#[trigger] players[seat]).hand.len() > 0
                ==> players[seat].hand[0].rank() <= best_rank(players, upto),
        best_rank(players, upto) == 0 || exists|seat: int|
            0 <= seat < upto && (#[trigger] players[seat]).hand.len() > 0
                && players[seat].hand[0].rank() == best_rank(players, upto),
        best_rank(players, upto) == 0 ==> forall|seat: int|
            0 <= seat < upto ==> (#[trigger] players[seat]).hand.len() == 0,
    decreases upto,
{
    if upto > 0 {
        lemma_best_rank(players, upto - 1);
        let last = players[upto - 1];
        if last.hand.len() > 0 {
            lemma_guessable_ranks(last.hand[0]);
        }
        if best_rank(players, upto) != 0 {
            if last.hand.len() > 0 && last.hand[0].rank() > best_rank(players, upto - 1) {
                assert(players[upto - 1].hand[0].rank() == best_rank(players, upto));
            } else {
                let seat = choose|seat: int|
                    0 <= seat < upto - 1 && (#[trigger] players[seat]).hand.len() > 0
                        && players[seat].hand[0].rank() == best_rank(players, upto - 1);
                assert(players[seat].hand[0].rank() == best_rank(players, upto));
            }
        }
    }
}

/// The seats that show `rank` below `upto` are exactly the active seats
/// there whose first card has that value, each once and in seat order.
pub proof fn lemma_seats_showing(players: Seq<PlayerModel>, rank: int, upto: int)
    requires
        0 <= upto <= players.len(),
        upto <= usize::MAX,
    ensures
        forall|i: int|
            0 <= i < seats_showing(players, rank, upto).len() ==> {
                let seat = #[trigger] seats_showing(players, rank, upto)[i];
                &&& seat < upto
                &&& players[seat as int].hand.len() > 0
                &&& players[seat as int].hand[0].rank() == rank
            },
        forall|i: int, j: int|
            0 <= i < j < seats_showing(players, rank, upto).len() ==> (#[trigger] seats_showing(
                players,
                rank,
                upto,
            )[i]) < (#[trigger] seats_showing(players, rank, upto)[j]),
        forall|seat: int|
            0 <= seat < upto && (#[trigger] players[seat]).hand.len() > 0
                && players[seat].hand[0].rank() == rank ==> seats_showing(
                players,
                rank,
                upto,
            ).contains(seat as usize),
    decreases upto,
{
    if upto > 0 {
        lemma_seats_showing(players, rank, upto - 1);
        let before = seats_showing(players, rank, upto - 1);
        let now = seats_showing(players, rank, upto);
        assert forall|seat: int|
            0 <= seat < upto && (#[trigger] players[seat]).hand.len() > 0
                && players[seat].hand[0].rank() == rank implies now.contains(seat as usize) by {
            if seat < upto - 1 {
                let at = choose|i: int| 0 <= i < before.len() && before[i] == seat as usize;
                assert(now[at] == seat as usize);
            } else {
                assert(now[now.len() - 1] == seat as usize);
            }
        }
    }
}

/// The winners of a round are exactly the active seats whose card is not
/// beaten by the card of any active seat; they are named once each, in seat
/// order.
pub proof fn lemma_winners(players: Seq<PlayerModel>, seat: PlayerId)
    requires
        players.len() <= usize::MAX,
    ensures
        winners(players).contains(seat) <==> {
            &&& seat < players.len()
            &&& players[seat as int].hand.len() > 0
            &&& forall|other: int|
                0 <= other < players.len() && (#[trigger] players[other]).hand.len() > 0
                    ==> players[other].hand[0].rank() <= players[seat as int].hand[0].rank()
        },
        forall|i: int, j: int|
            0 <= i < j < winners(players).len() ==> (#[trigger] winners(players)[i]) < (
            #[trigger] winners(players)[j]),
{
    let seats = players.len() as int;
    let best = best_rank(players, seats);
    lemma_best_rank(players, seats);
    lemma_seats_showing(players, best, seats);
    if winners(players).contains(seat) {
        let at = choose|i: int| 0 <= i < winners(players).len() && winners(players)[i] == seat;
        assert(winners(players)[at] == seat);
    }
    if seat < players.len() && players[seat as int].hand.len() > 0 && (forall|other: int|
        0 <= other < players.len() && (#[trigger] players[other]).hand.len() > 0
            ==> players[other].hand[0].rank() <= players[seat as int].hand[0].rank()) {
        lemma_guessable_ranks(players[seat as int].hand[0]);
        assert(best != 0);
        let top = choose|top: int|
            0 <= top < seats && (#[trigger] players[top]).hand.len() > 0
                && players[top].hand[0].rank() == best;
        assert(players[top].hand[0].rank() <= players[seat as int].hand[0].rank());
        assert(players[seat as int].hand[0].rank() == best);
    }
}

/// The wrap-up appends one fold for each active seat, in seat order, and
/// then the winners: nothing else.
pub proof fn lemma_wrap_up_appends(round: Round)
    requires
        round.game.players.len() <= usize::MAX,
    ensures
        ({
            let players = round.game.players;
            let seats = active_below(players, players.len() as int);
            let after = round.wrap_up();
            &&& after.game == round.game
            &&& after.log.len() == round.log.len() + seats.len() + 1
            &&& forall|i: int|
                0 <= i < round.log.len() ==> (#[trigger] after.log[i]).event == round.log[i].event
            &&& forall|i: int|
                0 <= i < seats.len() ==> (#[trigger] after.log[round.log.len() + i]).event
                    == EventView::Fold(seats[i], players[seats[i] as int].hand[0], GAME_FINISHED@)
            &&& after.log.last().event == EventView::Winner(winners(players))
        }),
{
    let players = round.game.players;
    lemma_closing_folds(players, players.len() as int);
}

/// The folds that end a round are one for each active seat, in seat order.
pub proof fn lemma_closing_folds(players: Seq<PlayerModel>, upto: int)
    requires
        0 <= upto <= players.len(),
        upto <= usize::MAX,
    ensures
        closing_folds(players, upto).len() == active_below(players, upto).len(),
        forall|i: int|
            0 <= i < active_below(players, upto).len() ==> {
                let seat = #[trigger] active_below(players, upto)[i];
                &&& seat < upto
                &&& players[seat as int].hand.len() > 0
                &&& closing_folds(players, upto)[i] == public_entry(
                    EventView::Fold(seat, players[seat as int].hand[0], GAME_FINISHED@),
                )
            },
    decreases upto,
{
    if upto > 0 {
        lemma_closing_folds(players, upto - 1);
    }
}

/// After the wrap-up every seat sees the whole log, as the omniscient view does.
pub proof fn lemma_wrap_up_reveals(round: Round, viewer: PlayerId)
    ensures
        project(round.wrap_up().log, Some(viewer)) == project(round.wrap_up().log, None),
        forall|i: int|
            0 <= i < round.wrap_up().log.len() ==> (#[trigger] round.wrap_up().log[i]).visibility
                == EventVisibility::Public,
{
    let closed = (round.log + closing_folds(
        round.game.players,
        round.game.players.len() as int,
    )).push(public_entry(EventView::Winner(winners(round.game.players))));
    lemma_project_published(closed, Some(viewer));
}

/// A Baron laid against an unprotected seat: the holder of the strictly
/// lower card drops out, and on a tie nobody does. `mine` is the card that
/// the mover keeps, `theirs` the card of the seat aimed at.
pub proof fn lemma_baron(round: Round, play: Play, mine: Card, theirs: Card)
    requires
        round.game.wf(),
        round.game.is_valid(Action::Play(play)),
        play.card == Card::Baron,
        play.opponent is Some,
        !round.game.players[play.opponent->0 as int].protected,
        round.game.players[round.game.players_turn as int].hand.remove_value(Card::Baron)
            == seq![mine],
        round.game.players[play.opponent->0 as int].hand == seq![theirs],
    ensures
        ({
            let mover = round.game.players_turn;
            let seat = play.opponent->0;
            let after = round.handle_play(play);
            let laid = round.log.push(public_entry(EventView::Play(mover, play)));
            &&& theirs.rank() < mine.rank() ==> {
                &&& after.game.players[seat as int].hand == Seq::<Card>::empty()
                &&& after.game.players[mover as int].hand == seq![mine]
                &&& after.log == laid.push(
                    public_entry(EventView::Fold(seat, theirs, SMALLER_CARD@)),
                ).push(public_entry(EventView::DropOut(seat)))
            }
            &&& mine.rank() < theirs.rank() ==> {
                &&& after.game.players[mover as int].hand == Seq::<Card>::empty()
                &&& after.game.players[seat as int].hand == seq![theirs]
                &&& after.log == laid.push(
                    public_entry(EventView::Fold(mover, mine, SMALLER_CARD@)),
                ).push(public_entry(EventView::DropOut(mover)))
            }
            &&& mine.rank() == theirs.rank() ==> {
                &&& after.game.players[mover as int].hand == seq![mine]
                &&& after.game.players[seat as int].hand == seq![theirs]
                &&& after.log == laid
            }
        }),
{
    let mover = round.game.players_turn;
    let seat = play.opponent->0;
    let after = round.handle_play(play);
    let laid = round.log.push(public_entry(EventView::Play(mover, play)));
    lemma_mover_is_active(round.game);
    lemma_remove_value(round.game.players[mover as int].hand, play.card);
    if theirs.rank() < mine.rank() {
        assert(after.game.players[seat as int].hand =~= Seq::<Card>::empty());
        assert(after.log =~= laid.push(
            public_entry(EventView::Fold(seat, theirs, SMALLER_CARD@)),
        ).push(public_entry(EventView::DropOut(seat))));
    } else if mine.rank() < theirs.rank() {
        assert(after.game.players[mover as int].hand =~= Seq::<Card>::empty());
        assert(after.log =~= laid.push(
            public_entry(EventView::Fold(mover, mine, SMALLER_CARD@)),
        ).push(public_entry(EventView::DropOut(mover))));
    } else {
    }
}

/// The number of cards held by the seats below `upto`.
pub open spec fn cards_held(players: Seq<PlayerModel>, upto: int) -> int
    decreases upto,
{
    if upto <= 0 {
        0
    } else {
        cards_held(players, upto - 1) + players[upto - 1].hand.len()
    }
}

/// Replacing one hand changes the number of cards held by the difference of
/// the two hands' sizes.
pub proof fn lemma_cards_held_update(
    players: Seq<PlayerModel>,
    seat: int,
    player: PlayerModel,
    upto: int,
)
    requires
        0 <= seat < players.len(),
        0 <= upto <= players.len(),
    ensures
        cards_held(players.update(seat, player), upto) == cards_held(players, upto) + if seat
            < upto {
            player.hand.len() - players[seat].hand.len()
        } else {
            0
        },
    decreases upto,
{
    if upto > 0 {
        lemma_cards_held_update(players, seat, player, upto - 1);
    }
}

/// A King laid against an unprotected seat: the card that the mover keeps
/// and the card of the seat aimed at change hands, no seat drops out, every
/// other hand stays as it is, and but for the King itself no card enters
/// or leaves the hands. `mine` is the card that the mover keeps, `theirs`
/// the card of the seat aimed at.
pub proof fn lemma_king(round: Round, play: Play, mine: Card, theirs: Card)
    requires
        round.game.wf(),
        round.game.is_valid(Action::Play(play)),
        play.card == Card::King,
        play.opponent is Some,
        !round.game.players[play.opponent->0 as int].protected,
        round.game.players[round.game.players_turn as int].hand.remove_value(Card::King)
            == seq![mine],
        round.game.players[play.opponent->0 as int].hand == seq![theirs],
    ensures
        ({
            let mover = round.game.players_turn;
            let seat = play.opponent->0;
            let after = round.handle_play(play);
            let seats = round.game.players.len() as int;
            &&& after.game.players[mover as int].hand == seq![theirs]
            &&& after.game.players[seat as int].hand == seq![mine]
            &&& after.game.players.len() == seats
            &&& forall|other: int|
                0 <= other < seats && other != mover && other != seat ==> (
                #[trigger] after.game.players[other]) == round.game.players[other]
            &&& after.game.played_card_count == round.game.played_card_count
            &&& after.log == round.log.push(public_entry(EventView::Play(mover, play)))
            &&& cards_held(after.game.players, seats) == cards_held(round.game.players, seats) - 1
        }),
{
    let game = round.game;
    let mover = game.players_turn as int;
    let seat = play.opponent->0 as int;
    let seats = game.players.len() as int;
    let after = round.handle_play(play);
    lemma_mover_is_active(game);
    lemma_remove_value(game.players[mover].hand, play.card);
    assert(after.game.players[mover].hand =~= seq![theirs]);
    assert(after.game.players[seat].hand =~= seq![mine]);
    let laid = PlayerModel { protected: game.players[mover].protected, hand: seq![mine] };
    let bare = PlayerModel { protected: false, hand: seq![mine] };
    let given = PlayerModel { protected: game.players[seat].protected, hand: seq![mine] };
    let taken = PlayerModel { protected: false, hand: seq![theirs] };
    let after_laying = game.players.update(mover, laid);
    let after_baring = after_laying.update(mover, bare);
    let after_giving = after_baring.update(seat, given);
    let after_taking = after_giving.update(mover, taken);
    assert(after.game.players =~= after_taking);
    lemma_cards_held_update(game.players, mover, laid, seats);
    lemma_cards_held_update(after_laying, mover, bare, seats);
    lemma_cards_held_update(after_baring, seat, given, seats);
    lemma_cards_held_update(after_giving, mover, taken, seats);
}

} // verus!
