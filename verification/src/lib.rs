//! Royals: a turn-based, hidden-information card game engine for two to six
//! players. The rules, the turn state machine, the event log and its
//! per-player visibility filter, each with what it guarantees.

use crate::card::Card;
use crate::card::standard_deck;
use crate::event::EventEntry;
use crate::event::entries;
use crate::game_lobby::GameLobby;
use crate::model::opening;
use crate::play::ActionId;
use crate::player::Player;
use crate::random_playing_computer::RandomPlayingComputer;
use crate::random_playing_computer::computer_name;
use crate::seat::Seat;
use vstd::prelude::*;

pub mod card;
pub mod chance;
pub mod console;
pub mod event;
pub mod game_lobby;
pub mod game_logic;
pub mod game_state;
pub mod laws;
pub mod model;
pub mod play;
pub mod player;
pub mod random_playing_computer;
pub mod seat;
pub mod text;
pub mod utils;

verus! {

/// Whether `seats` are the seats of a table of four: `guest` and three
/// computer players that are named after their ordinals, in some order.
pub open spec fn guest_among_computers<T>(seats: Seq<Seat<T>>, guest: T) -> bool {
    exists|first: RandomPlayingComputer, second: RandomPlayingComputer, third: RandomPlayingComputer|
        {
            &&& first.data.name_view() == computer_name(0)
            &&& second.data.name_view() == computer_name(1)
            &&& third.data.name_view() == computer_name(2)
            &&& seats.to_multiset() == (#[trigger] seq![
                Seat::Guest(guest),
                Seat::Computer(first),
                Seat::Computer(second),
                Seat::Computer(third),
            ]).to_multiset()
        }
}

/// Seats the player that `player_constructor` makes with three computer
/// players and plays a round of at most `turns` turns: deck and seats are
/// shuffled, the cards are dealt, and the players take turns until the round
/// is over or the turns are used up. Hands back the log of the round.
pub fn run_game<C, T>(player_constructor: C, turns: usize) -> (log: Vec<EventEntry>) where
    C: FnOnce() -> T,
    T: Player,

    requires
        player_constructor.requires(()),
    ensures
        exists|guest: T, lobby: GameLobby<Seat<T>>, deck: Seq<Card>, answers: Seq<ActionId>|
            #![trigger
                player_constructor.ensures((), guest),
                lobby.answered(opening(4, deck, Seq::empty()), answers),
            ]
            {
                let end = opening(4, deck, Seq::empty()).played(answers);
                &&& player_constructor.ensures((), guest)
                &&& guest_among_computers(lobby.seats(), guest)
                &&& deck.to_multiset() == standard_deck().to_multiset()
                &&& answers.len() <= turns
                &&& end.game.game_over() || answers.len() == turns
                &&& lobby.answered(opening(4, deck, Seq::empty()), answers)
                &&& entries(log@) == end.log
            },
{
    let mut lobby: GameLobby<Seat<T>> = GameLobby::new();
    let guest = player_constructor();
    let first = RandomPlayingComputer::new(0);
    let second = RandomPlayingComputer::new(1);
    let third = RandomPlayingComputer::new(2);
    let ghost seats = seq![
        Seat::Guest(guest),
        Seat::Computer(first),
        Seat::Computer(second),
        Seat::Computer(third),
    ];
    lobby.seat_player(Seat::Guest(guest));
    lobby.seat_player(Seat::Computer(first));
    lobby.seat_player(Seat::Computer(second));
    lobby.seat_player(Seat::Computer(third));
    assert(lobby.seats() =~= seats);
    let log = lobby.play_round(turns);
    assert(guest_among_computers(lobby.seats(), guest));
    log
}

} // verus!
