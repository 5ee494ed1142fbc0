use royals::event::Event;
use royals::game_lobby::GameLobby;
use royals::play::Action;
use royals::player::Player;
use royals::player::PlayerData;

pub struct TestPlayer {
    pub data: PlayerData,
}

impl TestPlayer {
    pub fn new(name: &str) -> Self {
        TestPlayer {
            data: PlayerData::new(name.to_string()),
        }
    }
}

impl Player for TestPlayer {
    fn data(&self) -> &PlayerData {
        &self.data
    }

    fn data_mut(&mut self) -> &mut PlayerData {
        &mut self.data
    }

    fn notify(&self, _game_log: &[Event], _players: &[&String]) {
        unreachable!()
    }

    fn obtain_action(
        &self,
        _players: &[&String],
        _game_log: &[Event],
        _actions: &[Action],
    ) -> usize {
        unreachable!()
    }
}

#[test]
fn game_lobby_player_names_should_return_list_of_names() {
    let mut lobby = GameLobby::new();
    lobby.add_player(|| TestPlayer::new("Foo"));
    lobby.add_player(|| TestPlayer::new("Bar"));

    assert_eq!(lobby.player_names(), vec!["Foo", "Bar"]);
}

#[test]
fn a_new_lobby_is_empty() {
    let lobby: GameLobby<TestPlayer> = GameLobby::new();
    assert_eq!(lobby.player_count(), 0);
    assert_eq!(lobby.player_names(), Vec::<&String>::new());
}
