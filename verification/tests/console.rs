use royals::card::Card;
use royals::console::names_cover_action;
use royals::console::names_cover_event;
use royals::console::ConsoleAction;
use royals::console::ConsolePlayer;
use royals::console::ParseActionError;
use royals::event::Event;
use royals::play::Action;
use royals::play::ParsePlayError;
use royals::play::Play;
use royals::text::parse_index;
use royals::text::render_index;
use std::str::FromStr;

fn names() -> Vec<String> {
    vec!["Ann".to_string(), "Bob".to_string(), "Cid".to_string()]
}

#[test]
fn render_index_writes_decimal() {
    assert_eq!(render_index(0), "0");
    assert_eq!(render_index(7), "7");
    assert_eq!(render_index(10), "10");
    assert_eq!(render_index(1203), "1203");
    assert_eq!(render_index(usize::MAX), usize::MAX.to_string());
}

#[test]
fn parse_index_reads_decimal() {
    assert_eq!(parse_index("0"), Some(0));
    assert_eq!(parse_index("42"), Some(42));
    assert_eq!(parse_index("+42"), Some(42));
    assert_eq!(parse_index("007"), Some(7));
    assert_eq!(parse_index(&usize::MAX.to_string()), Some(usize::MAX));
}

#[test]
fn parse_index_rejects_what_is_no_index() {
    assert_eq!(parse_index(""), None);
    assert_eq!(parse_index("+"), None);
    assert_eq!(parse_index("-1"), None);
    assert_eq!(parse_index("++1"), None);
    assert_eq!(parse_index("1+"), None);
    assert_eq!(parse_index("12a"), None);
    assert_eq!(parse_index(" 12"), None);
    assert_eq!(parse_index("12 "), None);
    assert_eq!(parse_index("٣"), None);
    assert_eq!(parse_index("18446744073709551616"), None);
    assert_eq!(parse_index("99999999999999999999999"), None);
}

#[test]
fn parse_index_agrees_with_the_standard_library() {
    for text in ["0", "5", "+5", "-5", "", "+", "1e3", "123456", "00", "18446744073709551615"] {
        assert_eq!(parse_index(text), usize::from_str(text).ok());
    }
    for n in [0, 1, 9, 10, 99, 100, 65535, usize::MAX] {
        assert_eq!(parse_index(&render_index(n)), Some(n));
    }
}

#[test]
fn card_names_read_back() {
    for card in Card::all() {
        assert_eq!(Card::parse(&card.name()), Some(card));
        assert_eq!(card.label(), card.name());
    }
    assert_eq!(Card::Countess.name(), "Countess");
    assert_eq!(Card::parse("guard"), None);
    assert_eq!(Card::parse(""), None);
    assert_eq!(Card::parse("Guard "), None);
}

#[test]
fn card_rule_names_value_and_effect() {
    assert_eq!(
        Card::Priest.rule(),
        "Priest [value = 2]: If you play this card, you may choose an opponent and see their card."
    );
    assert_eq!(
        Card::Princess.rule(),
        format!("Princess [value = 8]: {}", Card::Princess.message())
    );
}

#[test]
fn card_rules_list_every_rank_on_a_line_of_its_own() {
    let rules = Card::rules();
    let lines: Vec<&str> = rules.split('\n').collect();
    assert_eq!(lines.len(), 8);
    for (line, card) in lines.iter().zip(Card::all()) {
        assert_eq!(*line, card.rule());
    }
    assert!(!rules.ends_with('\n'));
}

#[test]
fn card_values_run_from_one_to_eight() {
    let values: Vec<u8> = Card::all().iter().map(|c| c.value()).collect();
    assert_eq!(values, vec![1, 2, 3, 4, 5, 6, 7, 8]);
    assert_eq!(
        Card::guessable(),
        vec![
            Card::Priest,
            Card::Baron,
            Card::Maid,
            Card::Prince,
            Card::King,
            Card::Countess,
            Card::Princess
        ]
    );
    let needs_opponent: Vec<bool> = Card::all().iter().map(|c| c.needs_opponent()).collect();
    assert_eq!(
        needs_opponent,
        vec![true, true, true, false, true, true, false, false]
    );
    let needs_guess: Vec<bool> = Card::all().iter().map(|c| c.needs_guess()).collect();
    assert_eq!(
        needs_guess,
        vec![true, false, false, false, false, false, false, false]
    );
}

#[test]
fn deck_holds_sixteen_cards() {
    let deck = Card::deck();
    assert_eq!(deck.len(), 16);
    let count = |card: Card| deck.iter().filter(|c| **c == card).count();
    assert_eq!(count(Card::Guard), 5);
    assert_eq!(count(Card::Priest), 2);
    assert_eq!(count(Card::Baron), 2);
    assert_eq!(count(Card::Maid), 2);
    assert_eq!(count(Card::Prince), 2);
    assert_eq!(count(Card::King), 1);
    assert_eq!(count(Card::Countess), 1);
    assert_eq!(count(Card::Princess), 1);
}

#[test]
fn console_action_parses_commands_cards_and_seats() {
    assert_eq!(ConsoleAction::parse("q"), Ok(ConsoleAction::Quit));
    assert_eq!(ConsoleAction::parse("r"), Ok(ConsoleAction::Rules));
    assert_eq!(ConsoleAction::parse("c"), Ok(ConsoleAction::CardEffects));
    assert_eq!(
        ConsoleAction::parse("Baron"),
        Ok(ConsoleAction::Card(Card::Baron))
    );
    assert_eq!(ConsoleAction::parse("3"), Ok(ConsoleAction::Player(3)));
    assert_eq!(ConsoleAction::parse("+3"), Ok(ConsoleAction::Player(3)));
    assert_eq!(ConsoleAction::parse(""), Err(ParseActionError));
    assert_eq!(ConsoleAction::parse("Q"), Err(ParseActionError));
    assert_eq!(ConsoleAction::parse("baron"), Err(ParseActionError));
    assert_eq!(ConsoleAction::parse("q "), Err(ParseActionError));
    assert_eq!(ConsoleAction::from_str("r"), Ok(ConsoleAction::Rules));
    assert_eq!(ConsoleAction::from_str("x"), Err(ParseActionError));
}

#[test]
fn console_action_names_its_command_and_what_it_does() {
    let names = names();
    let players: Vec<&String> = names.iter().collect();
    assert_eq!(ConsoleAction::Quit.cmd_str(), "q");
    assert_eq!(ConsoleAction::Rules.cmd_str(), "r");
    assert_eq!(ConsoleAction::CardEffects.cmd_str(), "c");
    assert_eq!(ConsoleAction::Card(Card::King).cmd_str(), "King");
    assert_eq!(ConsoleAction::Player(12).cmd_str(), "12");
    assert_eq!(ConsoleAction::Quit.info(&players), "quit");
    assert_eq!(ConsoleAction::Rules.info(&players), "display rules");
    assert_eq!(
        ConsoleAction::CardEffects.info(&players),
        "display card effects"
    );
    assert_eq!(
        ConsoleAction::Card(Card::King).info(&players),
        Card::King.rule()
    );
    assert_eq!(ConsoleAction::Player(1).info(&players), "Bob");
    for action in [
        ConsoleAction::Quit,
        ConsoleAction::Rules,
        ConsoleAction::CardEffects,
        ConsoleAction::Card(Card::Maid),
        ConsoleAction::Player(4),
    ] {
        assert_eq!(ConsoleAction::parse(&action.cmd_str()), Ok(action));
    }
}

#[test]
fn play_info_shows_card_seat_and_guess() {
    let play = Play {
        card: Card::Guard,
        opponent: Some(12),
        guess: Some(Card::King),
    };
    assert_eq!(play.info(), "\n\tGuard\n\tOpponent: 12\n\tGuess: King");
    let play = Play {
        card: Card::Maid,
        opponent: None,
        guess: None,
    };
    assert_eq!(play.info(), "\n\tMaid");
}

#[test]
fn play_parses_from_the_name_of_its_card() {
    assert_eq!(
        Play::parse("Baron"),
        Ok(Play {
            card: Card::Baron,
            opponent: None,
            guess: None
        })
    );
    assert_eq!(Play::parse("baron"), Err(ParsePlayError));
    assert_eq!(Play::parse("3"), Err(ParsePlayError));
    assert_eq!(
        Play::from_str("Princess"),
        Ok(Play {
            card: Card::Princess,
            opponent: None,
            guess: None
        })
    );
    assert_eq!(Play::from_str(""), Err(ParsePlayError));
}

#[test]
fn format_play_shows_card_opponent_and_guess() {
    let names = names();
    let players: Vec<&String> = names.iter().collect();
    let console = ConsolePlayer::named("Ann".to_string());
    assert_eq!(
        console.format_play(
            &Play {
                card: Card::Guard,
                opponent: Some(2),
                guess: Some(Card::King)
            },
            &players
        ),
        "\n\tGuard\n\tOpponent: Cid\n\tGuess: King"
    );
    assert_eq!(
        console.format_play(
            &Play {
                card: Card::Baron,
                opponent: Some(1),
                guess: None
            },
            &players
        ),
        "\n\tBaron\n\tOpponent: Bob"
    );
    assert_eq!(
        console.format_play(
            &Play {
                card: Card::Maid,
                opponent: None,
                guess: None
            },
            &players
        ),
        "\n\tMaid"
    );
}

#[test]
fn describe_event_words_every_kind_of_event() {
    let names = names();
    let players: Vec<&String> = names.iter().collect();
    let console = ConsolePlayer::named("Ann".to_string());
    let play = Play {
        card: Card::Priest,
        opponent: Some(1),
        guess: None,
    };
    assert_eq!(
        console.describe_event(&Event::Play(0, play), &players),
        "~ Play: Ann played \n\tPriest\n\tOpponent: Bob"
    );
    assert_eq!(
        console.describe_event(&Event::DropOut(2), &players),
        "~ DropOut: Cid"
    );
    assert_eq!(
        console.describe_event(&Event::Fold(1, Card::King, "gave up".to_string()), &players),
        "~ Fold: Bob folded King, because gave up"
    );
    assert_eq!(
        console.describe_event(&Event::PickUp(1, Some(Card::Maid), 11), &players),
        "~ PickUp: Bob picked up Maid , 11 cards remaining in deck"
    );
    assert_eq!(
        console.describe_event(&Event::PickUp(1, None, 0), &players),
        "~ PickUp: Bob picked up *** , 0 cards remaining in deck"
    );
    assert_eq!(
        console.describe_event(&Event::LearnedCard(2, Some(Card::Guard)), &players),
        "~ LearnedCard: Cid has card Guard"
    );
    assert_eq!(
        console.describe_event(&Event::LearnedCard(2, None), &players),
        "~ LearnedCard: Cid has card ***"
    );
    assert_eq!(
        console.describe_event(&Event::Winner(vec![2, 0]), &players),
        "Winner is Cid, Ann"
    );
    assert_eq!(
        console.describe_event(&Event::Winner(vec![1]), &players),
        "Winner is Bob"
    );
    assert_eq!(
        console.describe_event(&Event::Winner(vec![]), &players),
        "Winner is "
    );
}

#[test]
fn menu_offers_side_commands_and_actions_by_index() {
    let names = names();
    let players: Vec<&String> = names.iter().collect();
    let console = ConsolePlayer::named("Ann".to_string());
    let mut actions = vec![Action::GiveUp];
    for _ in 0..10 {
        actions.push(Action::Play(Play {
            card: Card::King,
            opponent: Some(1),
            guess: None,
        }));
    }
    let lines = console.menu(&actions, &players);
    assert_eq!(lines.len(), 13);
    assert_eq!(lines[0], "- [r]:\tdisplay rules");
    assert_eq!(lines[1], "- [c]:\tdisplay card effects");
    assert_eq!(lines[2], "- [0]:\tgive up");
    assert_eq!(lines[3], "- [1]:\t\n\tKing\n\tOpponent: Bob");
    assert_eq!(lines[12], "- [10]:\t\n\tKing\n\tOpponent: Bob");
    assert_eq!(
        console.menu(&[], &players),
        vec!["- [r]:\tdisplay rules", "- [c]:\tdisplay card effects"]
    );
}

#[test]
fn names_cover_what_stays_among_the_seats() {
    let play = |opponent| Play {
        card: Card::King,
        opponent,
        guess: None,
    };
    assert_eq!(names_cover_action(&Action::GiveUp, 0), true);
    assert_eq!(names_cover_action(&Action::Play(play(None)), 0), true);
    assert_eq!(names_cover_action(&Action::Play(play(Some(2))), 3), true);
    assert_eq!(names_cover_action(&Action::Play(play(Some(3))), 3), false);

    assert_eq!(names_cover_event(&Event::Play(2, play(Some(1))), 3), true);
    assert_eq!(names_cover_event(&Event::Play(3, play(Some(1))), 3), false);
    assert_eq!(names_cover_event(&Event::Play(2, play(Some(3))), 3), false);
    assert_eq!(names_cover_event(&Event::DropOut(2), 3), true);
    assert_eq!(names_cover_event(&Event::DropOut(3), 3), false);
    assert_eq!(
        names_cover_event(&Event::Fold(3, Card::King, "x".to_string()), 3),
        false
    );
    assert_eq!(names_cover_event(&Event::PickUp(0, None, 99), 1), true);
    assert_eq!(names_cover_event(&Event::LearnedCard(1, None), 1), false);
    assert_eq!(names_cover_event(&Event::Winner(vec![]), 0), true);
    assert_eq!(names_cover_event(&Event::Winner(vec![0, 2]), 3), true);
    assert_eq!(names_cover_event(&Event::Winner(vec![0, 3]), 3), false);
}
