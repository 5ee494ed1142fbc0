//! Seats, and the capability through which the engine asks a decision-maker
//! for its next action without knowing who or what it is.

use crate::event::Event;
use crate::play::Action;
use vstd::prelude::*;

verus! {

/// A seat at the table: an index into the round's list of players.
pub type PlayerId = usize;

/// What every decision-maker carries: the name it plays under.
pub struct PlayerData {
    name: String,
}

impl PlayerData {
    /// The name, as a sequence of characters.
    pub closed spec fn name_view(&self) -> Seq<char> {
        self.name@
    }

    /// The data of a player that goes by `name`.
    pub fn new(name: String) -> (data: Self)
        ensures
            data.name_view() == name@,
    {
        PlayerData { name }
    }
}

/// Whether `name` is the name in the data that `player` hands out.
pub open spec fn goes_by<P: Player>(player: &P, name: Seq<char>) -> bool {
    exists|data: &PlayerData| call_ensures(P::data, (player,), data) && data.name_view() == name
}

/// A decision-maker: a person at a console, a program, or a proxy for a
/// remote client. The engine tells it what happened and asks it to choose.
pub trait Player {
    fn data(&self) -> &PlayerData;

    fn data_mut(&mut self) -> &mut PlayerData;

    /// The name in the player's data.
    fn name(&self) -> (name: &String)
        ensures
            exists|data: &PlayerData|
                call_ensures(Self::data, (self,), data) && data.name_view() == name@,
    {
        let data = self.data();
        let name = &data.name;
        assert(call_ensures(Self::data, (self,), data) && data.name_view() == name@);
        name
    }

    /// Tells the player what it may know of the round so far. `players`
    /// holds the names of all seats, in seat order.
    fn notify(&self, game_log: &[Event], players: &[&String]);

    /// Asks the player to choose among `valid_actions`, which is never
    /// empty. The answer is an index into it; an index outside the list is
    /// not taken as a choice, and the player is asked again.
    fn obtain_action(
        &self,
        players: &[&String],
        game_log: &[Event],
        valid_actions: &[Action],
    ) -> (index: usize)
        requires
            valid_actions@.len() > 0,
    ;
}

} // verus!
