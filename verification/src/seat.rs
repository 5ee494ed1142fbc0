//! A seat that is taken either by a guest or by a computer player, so that
//! both kinds can sit at one table.

use crate::event::Event;
use crate::play::Action;
use crate::player::Player;
use crate::player::PlayerData;
use crate::random_playing_computer::RandomPlayingComputer;
use vstd::prelude::*;

verus! {

/// Who sits at a seat.
pub enum Seat<T> {
    Guest(T),
    Computer(RandomPlayingComputer),
}

impl<T: Player> Player for Seat<T> {
    /// The data of whoever sits there.
    fn data(&self) -> (data: &PlayerData)
        ensures
            match self {
                Seat::Guest(player) => call_ensures(T::data, (player,), data),
                Seat::Computer(player) => *data == player.data,
            },
    {
        match self {
            Seat::Guest(player) => player.data(),
            Seat::Computer(player) => player.data(),
        }
    }

    /// The data of whoever sits there, to be changed in place. Nobody
    /// changes seats over it.
    fn data_mut(&mut self) -> (data: &mut PlayerData)
        ensures
            *old(self) is Guest <==> *final(self) is Guest,
            *old(self) is Computer ==> *data == (*old(self))->Computer_0.data,
            *old(self) is Computer ==> (*final(self))->Computer_0.data == *final(data),
    {
        match self {
            Seat::Guest(player) => player.data_mut(),
            Seat::Computer(player) => player.data_mut(),
        }
    }

    /// Tells whoever sits there.
    fn notify(&self, game_log: &[Event], players: &[&String]) {
        match self {
            Seat::Guest(player) => player.notify(game_log, players),
            Seat::Computer(player) => player.notify(game_log, players),
        }
    }

    /// Asks whoever sits there, and hands on the answer.
    fn obtain_action(
        &self,
        players: &[&String],
        game_log: &[Event],
        valid_actions: &[Action],
    ) -> (index: usize)
        ensures
            match self {
                Seat::Guest(player) => call_ensures(
                    T::obtain_action,
                    (player, players, game_log, valid_actions),
                    index,
                ),
                Seat::Computer(player) => call_ensures(
                    RandomPlayingComputer::obtain_action,
                    (player, players, game_log, valid_actions),
                    index,
                ),
            },
    {
        match self {
            Seat::Guest(player) => player.obtain_action(players, game_log, valid_actions),
            Seat::Computer(player) => player.obtain_action(players, game_log, valid_actions),
        }
    }
}

} // verus!
