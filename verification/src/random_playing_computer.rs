//! A player that chooses at random, leaning away from giving up.

use crate::chance::gen_index;
use crate::event::Event;
use crate::play::Action;
use crate::player::Player;
use crate::player::PlayerData;
use vstd::prelude::*;

verus! {

/// How often a roll that lands on giving up is rolled again before it is
/// accepted.
pub const MAX_REROLLS: usize = 64;

/// The name of the `ordinal`-th computer player: three names, taken in turn.
pub open spec fn computer_name(ordinal: usize) -> Seq<char> {
    if ordinal % 3 == 0 {
        "Computer Alpha"@
    } else if ordinal % 3 == 1 {
        "Computer Bravo"@
    } else {
        "Computer Charlie"@
    }
}

/// Whether a roll is kept: a roll that lands on giving up is not, as long as
/// there is something else to choose.
pub open spec fn kept(actions: Seq<Action>, roll: int) -> bool {
    actions.len() <= 1 || actions[roll] != Action::GiveUp
}

/// Whether `rolls` is a course of rolling that ends with `index`: every roll
/// is an index into `actions`, every roll but the last was not kept, and the
/// last roll is `index`, which is kept or is the last roll allowed.
pub open spec fn rolled(actions: Seq<Action>, rolls: Seq<usize>, index: usize) -> bool {
    &&& 1 <= rolls.len() <= MAX_REROLLS + 1
    &&& forall|i: int| 0 <= i < rolls.len() ==> (#[trigger] rolls[i]) < actions.len()
    &&& forall|i: int| 0 <= i < rolls.len() - 1 ==> !kept(actions, #[trigger] rolls[i] as int)
    &&& rolls.last() == index
    &&& kept(actions, index as int) || rolls.len() == MAX_REROLLS + 1
}

/// A computer player that rolls dice over the legal actions.
pub struct RandomPlayingComputer {
    pub data: PlayerData,
}

impl RandomPlayingComputer {
    /// The `ordinal`-th computer player of a table, named after its ordinal.
    pub fn new(ordinal: usize) -> (computer: RandomPlayingComputer)
        ensures
            computer.data.name_view() == computer_name(ordinal),
    {
        let name = if ordinal % 3 == 0 {
            "Computer Alpha".to_owned()
        } else if ordinal % 3 == 1 {
            "Computer Bravo".to_owned()
        } else {
            "Computer Charlie".to_owned()
        };
        RandomPlayingComputer { data: PlayerData::new(name) }
    }

    /// Whether a roll is kept. A roll that lands on giving up is not, as
    /// long as there is something else to choose.
    pub fn keeps(valid_actions: &[Action], roll: usize) -> (kept: bool)
        requires
            roll < valid_actions@.len(),
        ensures
            kept == self::kept(valid_actions@, roll as int),
    {
        if valid_actions.len() <= 1 {
            return true;
        }
        match valid_actions[roll] {
            Action::GiveUp => false,
            Action::Play(_) => true,
        }
    }
}

impl Player for RandomPlayingComputer {
    fn data(&self) -> (data: &PlayerData)
        ensures
            *data == self.data,
    {
        &self.data
    }

    fn data_mut(&mut self) -> (data: &mut PlayerData)
        ensures
            *data == old(self).data,
            final(self).data == *final(data),
    {
        &mut self.data
    }

    fn notify(&self, _game_log: &[Event], _players: &[&String]) {
    }

    /// Rolls an index into `valid_action`. A roll that is not kept is rolled
    /// again, at most `MAX_REROLLS` times; the last roll stands whatever it
    /// is. Which rolls come up is up to chance.
    fn obtain_action(
        &self,
        _players: &[&String],
        _game_log: &[Event],
        valid_action: &[Action],
    ) -> (index: usize)
        ensures
            index < valid_action@.len(),
            exists|rolls: Seq<usize>| rolled(valid_action@, rolls, index),
    {
        let mut rng = rand::thread_rng();
        let len = valid_action.len();
        let mut action_index = gen_index(&mut rng, len);
        let mut rerolls: usize = 0;
        let ghost mut rolls = seq![action_index];
        while rerolls < MAX_REROLLS && !RandomPlayingComputer::keeps(valid_action, action_index)
            invariant
                len == valid_action@.len(),
                len > 0,
                action_index < len,
                rerolls <= MAX_REROLLS,
                rolls.len() == rerolls + 1,
                rolls.last() == action_index,
                forall|i: int| 0 <= i < rolls.len() ==> (#[trigger] rolls[i]) < len,
                forall|i: int|
                    0 <= i < rolls.len() - 1 ==> !kept(valid_action@, #[trigger] rolls[i] as int),
            decreases MAX_REROLLS - rerolls,
        {
            action_index = gen_index(&mut rng, len);
            rerolls += 1;
            proof {
                rolls = rolls.push(action_index);
            }
        }
        assert(rolled(valid_action@, rolls, action_index));
        action_index
    }
}

} // verus!
