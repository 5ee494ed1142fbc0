//! The steps of a round: drawing, dropping out, passing the turn, laying a
//! card, wrapping up, and what each seat gets to see of the log.

use crate::card::Card;
use crate::event::ATTACKED_PROTECTED;
use crate::event::EntryView;
use crate::event::Event;
use crate::event::EventEntry;
use crate::event::EventView;
use crate::event::EventVisibility;
use crate::event::FORCED_BY_PRINCE;
use crate::event::FORCED_TO_PLAY;
use crate::event::GAME_FINISHED;
use crate::event::GAVE_UP;
use crate::event::GUESSED;
use crate::event::PLAYED_PRINCESS;
use crate::event::SMALLER_CARD;
use crate::event::entries;
use crate::event::events;
use crate::event::lemma_entries_push;
use crate::event::project;
use crate::event::published;
use crate::game_state::GameState;
use crate::game_state::table;
use crate::laws::lemma_handle_action_wf;
use crate::model::Round;
use crate::model::best_rank;
use crate::model::closing_folds;
use crate::model::public_entry;
use crate::model::seats_showing;
use crate::model::winners;
use crate::play::Action;
use crate::play::ActionId;
use crate::play::Play;
use crate::player::PlayerId;
use crate::utils::VecExtensions;
use vstd::prelude::*;

verus! {

impl GameState<'_> {
    /// `player_id` draws the next card of the deck. The draw is logged for
    /// `player_id` alone, with the number of cards left in the deck.
    pub fn pick_up_card(&mut self, player_id: PlayerId, log: &mut Vec<EventEntry>)
        requires
            player_id < old(self).players.len(),
            old(self).played_card_count < old(self).deck.len(),
        ensures
            table(final(self)@, final(log)@) == table(old(self)@, old(log)@).pick_up(player_id),
    {
        let ghost before = table(self@, log@);
        let next_card = self.deck[self.played_card_count];
        self.played_card_count += 1;
        log.push(
            EventEntry {
                visibility: EventVisibility::Private(player_id),
                event: Event::PickUp(
                    player_id,
                    Some(next_card),
                    self.deck.len() - self.played_card_count,
                ),
            },
        );
        self.players[player_id].hand_mut().push(next_card);
        proof {
            let after = before.pick_up(player_id);
            assert(self@.players =~= after.game.players);
            assert(entries(log@) =~= after.log);
        }
    }

    /// `player_id` leaves the round: its cards are folded in public, the
    /// newest first, each with `reason`, and the seat drops out.
    pub fn drop_player(&mut self, player_id: PlayerId, reason: &str, log: &mut Vec<EventEntry>)
        requires
            player_id < old(self).players.len(),
        ensures
            table(final(self)@, final(log)@) == table(old(self)@, old(log)@).drop_player(
                player_id,
                reason@,
            ),
    {
        let ghost before = table(self@, log@);
        let ghost hand = self@.players[player_id as int].hand;
        let ghost fold = |i: int|
            public_entry(EventView::Fold(player_id, hand[hand.len() - 1 - i], reason@));
        while self.players[player_id].is_active()
            invariant
                player_id < self.players.len(),
                hand == before.game.players[player_id as int].hand,
                fold == |i: int|
                    public_entry(EventView::Fold(player_id, hand[hand.len() - 1 - i], reason@)),
                self@.players.len() == before.game.players.len(),
                self.played_card_count == before.game.played_card_count,
                self.players_turn == before.game.players_turn,
                self.deck@ == before.game.deck,
                forall|seat: int|
                    0 <= seat < self.players.len() && seat != player_id ==> (
                    #[trigger] self@.players[seat]) == before.game.players[seat],
                self@.players[player_id as int].protected
                    == before.game.players[player_id as int].protected,
                self@.players[player_id as int].hand.len() <= hand.len(),
                self@.players[player_id as int].hand == hand.take(
                    self@.players[player_id as int].hand.len() as int,
                ),
                entries(log@) == before.log + Seq::new(
                    (hand.len() - self@.players[player_id as int].hand.len()) as nat,
                    fold,
                ),
            decreases self@.players[player_id as int].hand.len(),
        {
            let ghost held = self@;
            let folded = self.players[player_id].hand_mut().pop();
            match folded {
                Some(card) => {
                    let entry = EventEntry {
                        visibility: EventVisibility::Public,
                        event: Event::Fold(player_id, card, reason.to_owned()),
                    };
                    proof {
                        lemma_entries_push(log@, entry);
                    }
                    log.push(entry);
                    proof {
                        let left = self@.players[player_id as int].hand;
                        assert(left =~= hand.take(left.len() as int));
                        assert(forall|seat: int|
                            0 <= seat < self.players.len() && seat != player_id ==> (
                            #[trigger] self@.players[seat]) == held.players[seat]);
                        assert(entries(log@) =~= before.log + Seq::new(
                            (hand.len() - left.len()) as nat,
                            fold,
                        ));
                    }
                },
                None => {},
            }
        }
        let entry = EventEntry {
            visibility: EventVisibility::Public,
            event: Event::DropOut(player_id),
        };
        proof {
            lemma_entries_push(log@, entry);
        }
        log.push(entry);
        proof {
            let after = before.drop_player(player_id, reason@);
            assert(self@.players[player_id as int].hand =~= Seq::<Card>::empty());
            assert(self@.players =~= after.game.players);
            assert(entries(log@) =~= after.log);
        }
    }

    /// The log as `visible_to` may see it: every entry in order, with the
    /// cards of other seats' private entries blanked. `None` sees everything.
    pub fn filter_event(log: &[EventEntry], visible_to: Option<PlayerId>) -> (seen: Vec<Event>)
        ensures
            events(seen@) == project(entries(log@), visible_to),
    {
        let mut seen: Vec<Event> = Vec::new();
        let mut i: usize = 0;
        while i < log.len()
            invariant
                i <= log.len(),
                seen.len() == i,
                forall|k: int| 0 <= k < i ==> (#[trigger] seen@[k])@ == log@[k]@.shown_to(visible_to),
            decreases log.len() - i,
        {
            seen.push(log[i].shown_to(visible_to));
            i += 1;
        }
        assert(events(seen@) =~= project(entries(log@), visible_to));
        seen
    }

    /// The turn passes to the next active seat. If the round is not over by
    /// then, that seat draws a card; otherwise the round is wrapped up.
    pub fn next_player_turn(&mut self, log: &mut Vec<EventEntry>)
        ensures
            table(final(self)@, final(log)@) == table(old(self)@, old(log)@).next_player_turn(),
    {
        let ghost before = table(self@, log@);
        let seats = self.players.len();
        let mut seat: usize = if seats > 0 && self.players_turn < seats - 1 {
            self.players_turn + 1
        } else {
            0
        };
        let mut fuel: usize = seats;
        while fuel > 0 && !(seat < seats && self.players[seat].is_active())
            invariant
                self@ == before.game,
                seats == self.players.len(),
                seat < seats || seat == 0,
                fuel <= seats,
                self@.seek_active(seat as int, fuel as nat) == before.game.next_mover(),
            decreases fuel,
        {
            seat = if seat < seats - 1 {
                seat + 1
            } else {
                0
            };
            fuel -= 1;
        }
        self.players_turn = seat;
        assert(self@.players =~= before.game.players);
        if !self.game_over() {
            assert(seats > 0) by {
                if seats == 0 {
                    assert(self@.at_most_one_active());
                }
            }
            self.pick_up_card(seat, log);
        } else {
            self.wrap_up_round(log);
        }
    }

    /// The end of a round: each active seat shows its card in public, in seat
    /// order; the seats that show the highest value are named winners; and
    /// every entry of the log becomes public.
    pub fn wrap_up_round(&mut self, log: &mut Vec<EventEntry>)
        ensures
            table(final(self)@, final(log)@) == table(old(self)@, old(log)@).wrap_up(),
    {
        let ghost before = table(self@, log@);
        let ghost players = self@.players;
        let seats = self.players.len();
        let mut i: usize = 0;
        while i < seats
            invariant
                i <= seats,
                seats == self.players.len(),
                self@ == before.game,
                players == before.game.players,
                entries(log@) == before.log + closing_folds(players, i as int),
            decreases seats - i,
        {
            if self.players[i].is_active() {
                let shown = self.players[i].hand()[0];
                let entry = EventEntry {
                    visibility: EventVisibility::Public,
                    event: Event::Fold(i, shown, GAME_FINISHED.to_owned()),
                };
                proof {
                    lemma_entries_push(log@, entry);
                }
                log.push(entry);
            }
            i += 1;
            assert(entries(log@) =~= before.log + closing_folds(players, i as int));
        }
        let mut best: u8 = 0;
        let mut i: usize = 0;
        while i < seats
            invariant
                i <= seats,
                seats == self.players.len(),
                self@ == before.game,
                players == before.game.players,
                best == best_rank(players, i as int),
            decreases seats - i,
        {
            if self.players[i].is_active() {
                let value = self.players[i].hand()[0].value();
                if value > best {
                    best = value;
                }
            }
            i += 1;
        }
        let mut best_players: Vec<PlayerId> = Vec::new();
        let mut i: usize = 0;
        while i < seats
            invariant
                i <= seats,
                seats == self.players.len(),
                self@ == before.game,
                players == before.game.players,
                best_players@ == seats_showing(players, best as int, i as int),
            decreases seats - i,
        {
            if self.players[i].is_active() && self.players[i].hand()[0].value() == best {
                best_players.push(i);
            }
            i += 1;
        }
        let entry = EventEntry {
            visibility: EventVisibility::Public,
            event: Event::Winner(best_players),
        };
        proof {
            lemma_entries_push(log@, entry);
        }
        log.push(entry);
        let ghost closed = entries(log@);
        let mut i: usize = 0;
        while i < log.len()
            invariant
                i <= log.len(),
                log.len() == closed.len(),
                forall|k: int|
                    0 <= k < i ==> (#[trigger] log@[k])@ == (EntryView {
                        visibility: EventVisibility::Public,
                        event: closed[k].event,
                    }),
                forall|k: int| i <= k < log.len() ==> (#[trigger] log@[k])@ == closed[k],
            decreases log.len() - i,
        {
            log[i].visibility = EventVisibility::Public;
            i += 1;
        }
        proof {
            assert(entries(log@) =~= published(closed));
            assert(closed == (before.log + closing_folds(players, seats as int)).push(
                public_entry(EventView::Winner(winners(players))),
            ));
        }
    }

    /// The effect of the card that the mover has just laid down.
    fn resolve(&mut self, p: &Play, log: &mut Vec<EventEntry>)
        requires
            old(self)@.supports(*p),
        ensures
            table(final(self)@, final(log)@) == table(old(self)@, old(log)@).resolve(*p),
    {
        let ghost before = table(self@, log@);
        let mover = self.players_turn;
        match p.card {
            Card::Guard => {
                if let Some(op) = p.opponent {
                    if let Some(g) = p.guess {
                        if self.players[op].hand()[0] == g {
                            self.drop_player(op, GUESSED, log)
                        }
                    }
                }
            },
            Card::Priest => {
                if let Some(op) = p.opponent {
                    let entry = EventEntry {
                        visibility: EventVisibility::Private(mover),
                        event: Event::LearnedCard(op, Some(self.players[op].hand()[0])),
                    };
                    proof {
                        lemma_entries_push(log@, entry);
                    }
                    log.push(entry);
                }
            },
            Card::Baron => {
                if let Some(op) = p.opponent {
                    let op_card = self.players[op].hand()[0];
                    let player_card = self.players[mover].hand()[0];
                    if op_card.value() < player_card.value() {
                        self.drop_player(op, SMALLER_CARD, log);
                    } else if player_card.value() < op_card.value() {
                        self.drop_player(mover, SMALLER_CARD, log);
                    }
                }
            },
            Card::Maid => {
                self.players[mover].set_protected(true);
                assert(self@.players =~= before.resolve(*p).game.players);
            },
            Card::Prince => {
                if let Some(op) = p.opponent {
                    if self.players[op].hand()[0] == Card::Princess {
                        self.drop_player(op, FORCED_TO_PLAY, log);
                    } else {
                        let folded = self.players[op].hand_mut().pop().unwrap();
                        let entry = EventEntry {
                            visibility: EventVisibility::Public,
                            event: Event::Fold(
                                op,
                                folded,
                                FORCED_BY_PRINCE.to_owned(),
                            ),
                        };
                        proof {
                            lemma_entries_push(log@, entry);
                            let theirs = before.game.players[op as int].hand;
                            assert(self@.players =~= before.game.with_hand(
                                op as int,
                                theirs.drop_last(),
                            ).players);
                        }
                        log.push(entry);
                        self.pick_up_card(op, log);
                    }
                }
            },
            Card::King => {
                if let Some(op) = p.opponent {
                    let op_card = self.players[op].hand_mut().pop().unwrap();
                    let player_card = self.players[mover].hand_mut().pop().unwrap();
                    self.players[op].hand_mut().push(player_card);
                    self.players[mover].hand_mut().push(op_card);
                    assert(self@.players =~= before.resolve(*p).game.players);
                }
            },
            Card::Countess => {},
            Card::Princess => self.drop_player(
                mover,
                PLAYED_PRINCESS,
                log,
            ),
        }
    }

    /// The mover lays `p` on the table. The card leaves the mover's hand and
    /// the play is logged in public. A mover who aims at a protected seat
    /// while some other seat is unprotected drops out; otherwise the mover's
    /// own protection ends and the card takes effect.
    pub fn handle_play(&mut self, p: &Play, log: &mut Vec<EventEntry>)
        requires
            old(self)@.wf(),
            old(self)@.is_valid(Action::Play(*p)),
        ensures
            table(final(self)@, final(log)@) == table(old(self)@, old(log)@).handle_play(*p),
    {
        let ghost before = table(self@, log@);
        let ghost hand = self@.players[self.players_turn as int].hand;
        let mover = self.players_turn;
        let wanted = p.card;
        let is_wanted = |held: &Card| -> (same: bool)
            ensures
                same == (*held == wanted),
            { *held == wanted };
        let ghost at = choose|k: int| 0 <= k < hand.len() && hand[k] == wanted;
        let removed = self.players[mover].hand_mut().remove_first_where(is_wanted);
        proof {
            assert(removed is Some) by {
                if removed is None {
                    assert(is_wanted.ensures((&hand[at],), false));
                }
            }
            let first = choose|i: int|
                {
                    &&& 0 <= i < hand.len()
                    &&& is_wanted.ensures((&hand[i],), true)
                    &&& forall|j: int|
                        0 <= j < i ==> #[trigger] is_wanted.ensures((&hand[j],), false)
                    &&& self@.players[mover as int].hand == hand.remove(i)
                };
            hand.index_of_first_ensures(wanted);
            let found = hand.index_of_first(wanted)->0;
            if found < first {
                assert(is_wanted.ensures((&hand[found],), false));
            }
            assert(self@.players =~= before.game.with_hand(
                mover as int,
                hand.remove_value(wanted),
            ).players);
        }
        let entry = EventEntry {
            visibility: EventVisibility::Public,
            event: Event::Play(mover, *p),
        };
        proof {
            lemma_entries_push(log@, entry);
        }
        log.push(entry);
        let ghost laid = Round {
            game: before.game.with_hand(mover as int, hand.remove_value(wanted)),
            log: before.log.push(public_entry(EventView::Play(mover, *p))),
        };
        proof {
            assert(table(self@, log@) == laid);
            assert(before.game.all_protected() == laid.game.all_protected()) by {
                assert(forall|seat: int|
                    before.game.other_active(seat) == laid.game.other_active(seat));
            }
        }
        if let Some(opponent) = p.opponent {
            if self.players[opponent].protected() && !self.all_protected() {
                self.drop_player(mover, ATTACKED_PROTECTED, log);
                return ;
            }
        }
        self.players[mover].set_protected(false);
        proof {
            assert(self@.players =~= laid.game.with_protected(mover as int, false).players);
        }
        self.resolve(p, log);
    }

    /// The mover submits the `action`-th of the legal actions of the turn. An
    /// index outside the list changes nothing, so that the same list is on
    /// offer again. Otherwise the action is carried out, giving up or laying
    /// a card, and the turn passes on.
    pub fn handle_action(&mut self, action: ActionId, log: &mut Vec<EventEntry>)
        requires
            old(self)@.wf(),
        ensures
            table(final(self)@, final(log)@) == table(old(self)@, old(log)@).handle_action(action),
            final(self)@.wf(),
            final(self)@.players.len() == old(self)@.players.len(),
            final(self)@.deck == old(self)@.deck,
    {
        proof {
            lemma_handle_action_wf(table(self@, log@), action);
        }
        let (_, actions) = self.valid_actions();
        if action < actions.len() {
            proof {
                let every = seq![Action::GiveUp] + self@.possible_actions();
                every.lemma_filter_pred(|a: Action| self@.is_valid(a), action as int);
            }
            match &actions[action] {
                Action::GiveUp => {
                    self.drop_player(self.players_turn, GAVE_UP, log);
                },
                Action::Play(p) => {
                    self.handle_play(p, log);
                },
            }
            self.next_player_turn(log);
        }
    }
}

} // verus!
