use royals::card::Card;
use royals::event::Event;
use royals::event::EventEntry;
use royals::event::EventVisibility;
use royals::game_state::GameState;
use royals::game_state::PlayerState;
use royals::play::Action;
use royals::play::Play;

fn seat(protected: bool, hand: Vec<Card>) -> PlayerState {
    PlayerState::holding(protected, hand)
}

fn table<'a>(deck: &'a [Card], drawn: usize, turn: usize, players: Vec<PlayerState>) -> GameState<'a> {
    GameState {
        players,
        played_card_count: drawn,
        players_turn: turn,
        deck,
    }
}

fn hands(state: &GameState) -> Vec<Vec<Card>> {
    state.players.iter().map(|p| p.hand().clone()).collect()
}

fn events(log: &[EventEntry]) -> Vec<Event> {
    log.iter().map(|e| e.event.clone()).collect()
}

fn public(event: Event) -> EventEntry {
    EventEntry {
        visibility: EventVisibility::Public,
        event,
    }
}

fn play(card: Card, opponent: Option<usize>, guess: Option<Card>) -> Play {
    Play {
        card,
        opponent,
        guess,
    }
}

#[test]
fn new_deals_one_card_to_each_seat_and_a_second_to_the_first() {
    let deck = Card::deck();
    let mut log = vec![];
    let state = GameState::new(3, &deck, &mut log);

    assert_eq!(
        hands(&state),
        vec![
            vec![Card::Guard, Card::Guard],
            vec![Card::Guard],
            vec![Card::Guard]
        ]
    );
    assert_eq!(state.played_card_count, 4);
    assert_eq!(state.players_turn, 0);
    assert_eq!(
        log,
        vec![
            EventEntry {
                visibility: EventVisibility::Private(0),
                event: Event::PickUp(0, Some(Card::Guard), 15)
            },
            EventEntry {
                visibility: EventVisibility::Private(1),
                event: Event::PickUp(1, Some(Card::Guard), 14)
            },
            EventEntry {
                visibility: EventVisibility::Private(2),
                event: Event::PickUp(2, Some(Card::Guard), 13)
            },
            EventEntry {
                visibility: EventVisibility::Private(0),
                event: Event::PickUp(0, Some(Card::Guard), 12)
            },
        ]
    );
    assert!(state.players.iter().all(|p| !p.protected()));
}

#[test]
fn new_keeps_what_the_log_held_before() {
    let deck = vec![Card::King, Card::Maid, Card::Baron, Card::Priest, Card::Guard];
    let mut log = vec![public(Event::DropOut(7))];
    let state = GameState::new(2, &deck, &mut log);

    assert_eq!(hands(&state), vec![vec![Card::King, Card::Baron], vec![Card::Maid]]);
    assert_eq!(log.len(), 4);
    assert_eq!(log[0], public(Event::DropOut(7)));
    assert_eq!(
        log[3],
        EventEntry {
            visibility: EventVisibility::Private(0),
            event: Event::PickUp(0, Some(Card::Baron), 2)
        }
    );
}

#[test]
fn pick_up_card_draws_the_next_card_in_private() {
    let deck = Card::deck();
    let mut state = table(&deck, 5, 0, vec![seat(false, vec![Card::Guard]), seat(true, vec![])]);
    let mut log = vec![];
    state.pick_up_card(1, &mut log);

    assert_eq!(hands(&state), vec![vec![Card::Guard], vec![Card::Priest]]);
    assert_eq!(state.played_card_count, 6);
    assert_eq!(state.players[1].protected(), true);
    assert_eq!(
        log,
        vec![EventEntry {
            visibility: EventVisibility::Private(1),
            event: Event::PickUp(1, Some(Card::Priest), 10)
        }]
    );
}

#[test]
fn drop_player_folds_the_newest_card_first() {
    let deck = Card::deck();
    let mut state = table(
        &deck,
        5,
        0,
        vec![seat(false, vec![Card::Guard, Card::King]), seat(false, vec![Card::Maid])],
    );
    let mut log = vec![];
    state.drop_player(0, "some reason", &mut log);

    assert_eq!(hands(&state), vec![vec![], vec![Card::Maid]]);
    assert_eq!(
        log,
        vec![
            public(Event::Fold(0, Card::King, "some reason".to_string())),
            public(Event::Fold(0, Card::Guard, "some reason".to_string())),
            public(Event::DropOut(0)),
        ]
    );
}

#[test]
fn drop_player_without_cards_only_drops_out() {
    let deck = Card::deck();
    let mut state = table(&deck, 5, 0, vec![seat(false, vec![]), seat(false, vec![Card::Maid])]);
    let mut log = vec![];
    state.drop_player(0, "some reason", &mut log);

    assert_eq!(log, vec![public(Event::DropOut(0))]);
}

#[test]
fn king_exchanges_the_two_hands() {
    for theirs in [Card::Priest, Card::Guard] {
        let deck = Card::deck();
        let mut state = table(
            &deck,
            3,
            0,
            vec![seat(false, vec![Card::King, Card::King]), seat(false, vec![theirs])],
        );
        let mut log = vec![];
        let p = play(Card::King, Some(1), None);
        assert!(state.is_valid(&Action::Play(p)));
        state.handle_play(&p, &mut log);

        assert_eq!(hands(&state), vec![vec![theirs], vec![Card::King]]);
        assert_eq!(state.played_card_count, 3);
        assert_eq!(log, vec![public(Event::Play(0, p))]);
        assert!(!events(&log).iter().any(|e| matches!(e, Event::DropOut(_))));
    }
}

#[test]
fn king_leaves_the_other_seats_alone() {
    let deck = Card::deck();
    let mut state = table(
        &deck,
        4,
        2,
        vec![
            seat(false, vec![Card::Baron]),
            seat(true, vec![Card::Maid]),
            seat(true, vec![Card::Priest, Card::King]),
        ],
    );
    let mut log = vec![];
    let p = play(Card::King, Some(0), None);
    assert!(state.is_valid(&Action::Play(p)));
    state.handle_play(&p, &mut log);

    assert_eq!(
        hands(&state),
        vec![vec![Card::Priest], vec![Card::Maid], vec![Card::Baron]]
    );
    assert_eq!(state.players[2].protected(), false);
    assert_eq!(state.players[1].protected(), true);
    let held: usize = state.players.iter().map(|p| p.hand().len()).sum();
    assert_eq!(held, 3);
}

#[test]
fn guard_with_the_right_guess_drops_the_opponent() {
    let deck = Card::deck();
    let mut state = table(
        &deck,
        3,
        0,
        vec![seat(false, vec![Card::Guard, Card::Maid]), seat(false, vec![Card::Priest])],
    );
    let mut log = vec![];
    let p = play(Card::Guard, Some(1), Some(Card::Priest));
    assert!(state.is_valid(&Action::Play(p)));
    state.handle_play(&p, &mut log);

    assert_eq!(
        log,
        vec![
            public(Event::Play(0, p)),
            public(Event::Fold(
                1,
                Card::Priest,
                "opponent guessed the hand card".to_string()
            )),
            public(Event::DropOut(1)),
        ]
    );
    assert_eq!(hands(&state), vec![vec![Card::Maid], vec![]]);
}

#[test]
fn guard_with_the_wrong_guess_changes_nothing() {
    let deck = Card::deck();
    let mut state = table(
        &deck,
        3,
        0,
        vec![seat(true, vec![Card::Guard, Card::Maid]), seat(false, vec![Card::Priest])],
    );
    let mut log = vec![];
    let p = play(Card::Guard, Some(1), Some(Card::Baron));
    state.handle_play(&p, &mut log);

    assert_eq!(log, vec![public(Event::Play(0, p))]);
    assert_eq!(hands(&state), vec![vec![Card::Maid], vec![Card::Priest]]);
    assert_eq!(state.players[0].protected(), false);
}

#[test]
fn priest_shows_the_card_to_the_mover_only() {
    let deck = Card::deck();
    let mut state = table(
        &deck,
        3,
        1,
        vec![seat(false, vec![Card::Countess]), seat(false, vec![Card::Priest, Card::Maid])],
    );
    let mut log = vec![];
    let p = play(Card::Priest, Some(0), None);
    state.handle_play(&p, &mut log);

    assert_eq!(
        log,
        vec![
            public(Event::Play(1, p)),
            EventEntry {
                visibility: EventVisibility::Private(1),
                event: Event::LearnedCard(0, Some(Card::Countess))
            },
        ]
    );
    assert_eq!(hands(&state), vec![vec![Card::Countess], vec![Card::Maid]]);
}

#[test]
fn baron_drops_the_strictly_lower_card() {
    let deck = Card::deck();
    let p = play(Card::Baron, Some(1), None);

    let mut state = table(
        &deck,
        3,
        0,
        vec![seat(false, vec![Card::Baron, Card::Prince]), seat(false, vec![Card::Maid])],
    );
    let mut log = vec![];
    state.handle_play(&p, &mut log);
    assert_eq!(hands(&state), vec![vec![Card::Prince], vec![]]);
    assert_eq!(
        log,
        vec![
            public(Event::Play(0, p)),
            public(Event::Fold(1, Card::Maid, "smaller card then opponent".to_string())),
            public(Event::DropOut(1)),
        ]
    );

    let mut state = table(
        &deck,
        3,
        0,
        vec![seat(false, vec![Card::Guard, Card::Baron]), seat(false, vec![Card::Maid])],
    );
    let mut log = vec![];
    state.handle_play(&p, &mut log);
    assert_eq!(hands(&state), vec![vec![], vec![Card::Maid]]);
    assert_eq!(
        log,
        vec![
            public(Event::Play(0, p)),
            public(Event::Fold(0, Card::Guard, "smaller card then opponent".to_string())),
            public(Event::DropOut(0)),
        ]
    );
}

#[test]
fn baron_never_drops_on_a_tie() {
    let deck = Card::deck();
    let p = play(Card::Baron, Some(1), None);
    let mut state = table(
        &deck,
        3,
        0,
        vec![seat(false, vec![Card::Baron, Card::Maid]), seat(false, vec![Card::Maid])],
    );
    let mut log = vec![];
    state.handle_play(&p, &mut log);
    assert_eq!(hands(&state), vec![vec![Card::Maid], vec![Card::Maid]]);
    assert_eq!(log, vec![public(Event::Play(0, p))]);
}

#[test]
fn maid_protects_the_mover() {
    let deck = Card::deck();
    let p = play(Card::Maid, None, None);
    let mut state = table(
        &deck,
        3,
        0,
        vec![seat(false, vec![Card::Baron, Card::Maid]), seat(false, vec![Card::Maid])],
    );
    let mut log = vec![];
    assert!(state.is_valid(&Action::Play(p)));
    state.handle_play(&p, &mut log);
    assert_eq!(state.players[0].protected(), true);
    assert_eq!(state.players[1].protected(), false);
    assert_eq!(hands(&state), vec![vec![Card::Baron], vec![Card::Maid]]);
    assert_eq!(log, vec![public(Event::Play(0, p))]);
}

#[test]
fn prince_makes_the_opponent_fold_and_draw() {
    let deck = Card::deck();
    let p = play(Card::Prince, Some(1), None);
    let mut state = table(
        &deck,
        13,
        0,
        vec![seat(false, vec![Card::Prince, Card::Guard]), seat(false, vec![Card::Maid])],
    );
    let mut log = vec![];
    assert!(state.is_valid(&Action::Play(p)));
    state.handle_play(&p, &mut log);
    assert_eq!(hands(&state), vec![vec![Card::Guard], vec![Card::King]]);
    assert_eq!(state.played_card_count, 14);
    assert_eq!(
        log,
        vec![
            public(Event::Play(0, p)),
            public(Event::Fold(
                1,
                Card::Maid,
                "opponent has played prince to force it".to_string()
            )),
            EventEntry {
                visibility: EventVisibility::Private(1),
                event: Event::PickUp(1, Some(Card::King), 2)
            },
        ]
    );
}

#[test]
fn prince_against_the_princess_drops_the_opponent() {
    let deck = Card::deck();
    let p = play(Card::Prince, Some(1), None);
    let mut state = table(
        &deck,
        13,
        0,
        vec![seat(false, vec![Card::Prince, Card::Guard]), seat(false, vec![Card::Princess])],
    );
    let mut log = vec![];
    state.handle_play(&p, &mut log);
    assert_eq!(hands(&state), vec![vec![Card::Guard], vec![]]);
    assert_eq!(state.played_card_count, 13);
    assert_eq!(
        log,
        vec![
            public(Event::Play(0, p)),
            public(Event::Fold(1, Card::Princess, "forced to play it".to_string())),
            public(Event::DropOut(1)),
        ]
    );
}

#[test]
fn princess_drops_the_mover() {
    let deck = Card::deck();
    let p = play(Card::Princess, None, None);
    let mut state = table(
        &deck,
        3,
        0,
        vec![seat(false, vec![Card::Princess, Card::Guard]), seat(false, vec![Card::Maid])],
    );
    let mut log = vec![];
    assert!(state.is_valid(&Action::Play(p)));
    state.handle_play(&p, &mut log);
    assert_eq!(hands(&state), vec![vec![], vec![Card::Maid]]);
    assert_eq!(
        log,
        vec![
            public(Event::Play(0, p)),
            public(Event::Fold(
                0,
                Card::Guard,
                "playing the princess is equivalent to giving up".to_string()
            )),
            public(Event::DropOut(0)),
        ]
    );
}

#[test]
fn countess_has_no_effect() {
    let deck = Card::deck();
    let p = play(Card::Countess, None, None);
    let mut state = table(
        &deck,
        3,
        0,
        vec![seat(true, vec![Card::King, Card::Countess]), seat(false, vec![Card::Maid])],
    );
    let mut log = vec![];
    state.handle_play(&p, &mut log);
    assert_eq!(hands(&state), vec![vec![Card::King], vec![Card::Maid]]);
    assert_eq!(state.players[0].protected(), false);
    assert_eq!(log, vec![public(Event::Play(0, p))]);
}

#[test]
fn attacking_a_protected_seat_drops_the_mover() {
    let deck = Card::deck();
    let p = play(Card::Guard, Some(1), Some(Card::Maid));
    let mut state = table(
        &deck,
        4,
        0,
        vec![
            seat(true, vec![Card::Guard, Card::Priest]),
            seat(true, vec![Card::Maid]),
            seat(false, vec![Card::Baron]),
        ],
    );
    let mut log = vec![];
    assert!(state.is_valid(&Action::Play(p)));
    state.handle_play(&p, &mut log);
    assert_eq!(
        hands(&state),
        vec![vec![], vec![Card::Maid], vec![Card::Baron]]
    );
    assert_eq!(state.players[0].protected(), true);
    assert_eq!(
        log,
        vec![
            public(Event::Play(0, p)),
            public(Event::Fold(
                0,
                Card::Priest,
                "attacked a protected player".to_string()
            )),
            public(Event::DropOut(0)),
        ]
    );
}

#[test]
fn handle_play_removes_the_first_of_two_equal_cards() {
    let deck = Card::deck();
    let p = play(Card::Priest, Some(1), None);
    let mut state = table(
        &deck,
        3,
        0,
        vec![seat(false, vec![Card::Priest, Card::Priest]), seat(false, vec![Card::Maid])],
    );
    let mut log = vec![];
    state.handle_play(&p, &mut log);
    assert_eq!(hands(&state), vec![vec![Card::Priest], vec![Card::Maid]]);
}

#[test]
fn wrap_up_after_the_last_draw() {
    let deck = Card::deck();
    let mut state = table(
        &deck,
        15,
        0,
        vec![
            seat(false, vec![Card::Baron]),
            seat(false, vec![]),
            seat(false, vec![Card::King]),
        ],
    );
    assert_eq!(state.game_over(), true);
    assert_eq!(state.valid_actions(), (None, vec![]));

    let mut log = vec![
        EventEntry {
            visibility: EventVisibility::Private(0),
            event: Event::PickUp(0, Some(Card::Baron), 12),
        },
        public(Event::DropOut(1)),
        EventEntry {
            visibility: EventVisibility::Private(2),
            event: Event::LearnedCard(0, Some(Card::Baron)),
        },
    ];
    state.next_player_turn(&mut log);

    assert_eq!(state.players_turn, 2);
    assert_eq!(state.played_card_count, 15);
    assert_eq!(
        hands(&state),
        vec![vec![Card::Baron], vec![], vec![Card::King]]
    );
    assert_eq!(
        log,
        vec![
            public(Event::PickUp(0, Some(Card::Baron), 12)),
            public(Event::DropOut(1)),
            public(Event::LearnedCard(0, Some(Card::Baron))),
            public(Event::Fold(0, Card::Baron, "game is finished".to_string())),
            public(Event::Fold(2, Card::King, "game is finished".to_string())),
            public(Event::Winner(vec![2])),
        ]
    );
    let folds = log
        .iter()
        .filter(|e| matches!(e.event, Event::Fold(_, _, _)))
        .count();
    let winners = log
        .iter()
        .filter(|e| matches!(e.event, Event::Winner(_)))
        .count();
    assert_eq!(folds, 2);
    assert_eq!(winners, 1);
    assert!(log.iter().all(|e| e.visibility == EventVisibility::Public));
    for viewer in 0..3 {
        assert_eq!(
            GameState::filter_event(&log, Some(viewer)),
            GameState::filter_event(&log, None)
        );
    }
}

#[test]
fn wrap_up_shares_victory_on_a_tie() {
    let deck = Card::deck();
    let mut state = table(
        &deck,
        15,
        0,
        vec![
            seat(false, vec![Card::Maid]),
            seat(false, vec![Card::Guard]),
            seat(false, vec![]),
            seat(false, vec![Card::Maid]),
        ],
    );
    let mut log = vec![];
    state.wrap_up_round(&mut log);
    assert_eq!(
        log,
        vec![
            public(Event::Fold(0, Card::Maid, "game is finished".to_string())),
            public(Event::Fold(1, Card::Guard, "game is finished".to_string())),
            public(Event::Fold(3, Card::Maid, "game is finished".to_string())),
            public(Event::Winner(vec![0, 3])),
        ]
    );
}

#[test]
fn wrap_up_without_active_seats_names_no_winner() {
    let deck = Card::deck();
    let mut state = table(&deck, 15, 0, vec![seat(false, vec![]), seat(false, vec![])]);
    let mut log = vec![];
    state.wrap_up_round(&mut log);
    assert_eq!(log, vec![public(Event::Winner(vec![]))]);
}

#[test]
fn next_player_turn_skips_empty_hands_and_wraps_round() {
    let deck = Card::deck();
    let mut state = table(
        &deck,
        5,
        2,
        vec![
            seat(false, vec![]),
            seat(false, vec![Card::Baron]),
            seat(false, vec![Card::King]),
            seat(false, vec![]),
        ],
    );
    let mut log = vec![];
    state.next_player_turn(&mut log);
    assert_eq!(state.players_turn, 1);
    assert_eq!(
        hands(&state),
        vec![vec![], vec![Card::Baron, Card::Priest], vec![Card::King], vec![]]
    );
    assert_eq!(
        log,
        vec![EventEntry {
            visibility: EventVisibility::Private(1),
            event: Event::PickUp(1, Some(Card::Priest), 10)
        }]
    );
}

#[test]
fn next_player_turn_wraps_up_when_one_seat_is_left() {
    let deck = Card::deck();
    let mut state = table(
        &deck,
        5,
        0,
        vec![seat(false, vec![]), seat(false, vec![Card::Baron])],
    );
    let mut log = vec![];
    state.next_player_turn(&mut log);
    assert_eq!(state.players_turn, 1);
    assert_eq!(state.played_card_count, 5);
    assert_eq!(
        log,
        vec![
            public(Event::Fold(1, Card::Baron, "game is finished".to_string())),
            public(Event::Winner(vec![1])),
        ]
    );
}

#[test]
fn filter_event_blanks_the_cards_of_other_seats() {
    let p = play(Card::Priest, Some(1), None);
    let log = vec![
        EventEntry {
            visibility: EventVisibility::Private(0),
            event: Event::PickUp(0, Some(Card::Priest), 12),
        },
        EventEntry {
            visibility: EventVisibility::Private(1),
            event: Event::PickUp(1, Some(Card::King), 11),
        },
        public(Event::Play(0, p)),
        EventEntry {
            visibility: EventVisibility::Private(0),
            event: Event::LearnedCard(1, Some(Card::King)),
        },
        public(Event::Fold(1, Card::King, "because".to_string())),
        public(Event::LearnedCard(1, Some(Card::Guard))),
        EventEntry {
            visibility: EventVisibility::Private(1),
            event: Event::DropOut(1),
        },
    ];

    assert_eq!(
        GameState::filter_event(&log, Some(0)),
        vec![
            Event::PickUp(0, Some(Card::Priest), 12),
            Event::PickUp(1, None, 11),
            Event::Play(0, p),
            Event::LearnedCard(1, Some(Card::King)),
            Event::Fold(1, Card::King, "because".to_string()),
            Event::LearnedCard(1, Some(Card::Guard)),
            Event::DropOut(1),
        ]
    );
    assert_eq!(
        GameState::filter_event(&log, Some(1)),
        vec![
            Event::PickUp(0, None, 12),
            Event::PickUp(1, Some(Card::King), 11),
            Event::Play(0, p),
            Event::LearnedCard(1, None),
            Event::Fold(1, Card::King, "because".to_string()),
            Event::LearnedCard(1, Some(Card::Guard)),
            Event::DropOut(1),
        ]
    );
    assert_eq!(
        GameState::filter_event(&log, Some(2)),
        vec![
            Event::PickUp(0, None, 12),
            Event::PickUp(1, None, 11),
            Event::Play(0, p),
            Event::LearnedCard(1, None),
            Event::Fold(1, Card::King, "because".to_string()),
            Event::LearnedCard(1, Some(Card::Guard)),
            Event::DropOut(1),
        ]
    );
    assert_eq!(GameState::filter_event(&log, None), events(&log));
    assert_eq!(GameState::filter_event(&[], Some(0)), vec![]);
}
