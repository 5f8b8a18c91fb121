use libaitfoaq::events::Event;
use libaitfoaq::state::{Board, Category, Clue, GamePhase, GameState, Points};
use libaitfoaq::{Error, Game};

fn get_test_board(cs: usize, qs: usize) -> Board {
    Board {
        categories: (1..(cs + 1))
            .map(|c| Category {
                title: format!("Category {}", c),
                clues: (1..(qs + 1))
                    .map(|q| Clue {
                        clue: format!("clue {}", q),
                        response: format!("clue {}", q),
                        hint: format!("clue {}", q),
                        points: 100 * q as Points,
                        can_wager: q == 4 && c == 2,
                        exclusive: q == 4 && c == 2,
                        solved: false,
                    })
                    .collect(),
            })
            .collect(),
    }
}

fn play(events: Vec<Event>) -> Game {
    events.into_iter().fold(Game::default(), |mut g, e| {
        g.apply(e.clone())
            .expect(format!("could not apply event {:?}", e).as_str());
        g
    })
}

fn lobby_with(board: Board, n: usize) -> Game {
    let mut events = vec![Event::LoadBoard(board), Event::OpenLobby];
    for i in 0..n {
        events.push(Event::ConnectContestant { name_hint: format!("hint {}", i) });
    }
    play(events)
}

#[test]
fn it_works() {
    let mut test_board = get_test_board(2, 2);
    let g = play(vec![
        Event::LoadBoard(test_board.clone()),
        Event::OpenLobby,
        Event::ConnectContestant {
            name_hint: "test_contestant_hint".to_owned(),
        },
        Event::NameContestant {
            index: 0,
            name: "Test Contestant".to_owned(),
        },
        Event::StartGame,
        Event::Pick { clue: (0, 0) },
        Event::ClueFullyShown,
        Event::Buzz { contestant: 0 },
        Event::RejectAnswer,
        Event::FinishClue,
        Event::FinishClue,
        Event::Pick { clue: (0, 1) },
        Event::ClueFullyShown,
        Event::Buzz { contestant: 0 },
        Event::AcceptAnswer,
        Event::FinishClue,
        Event::Pick { clue: (1, 0) },
        Event::ClueFullyShown,
        Event::Buzz { contestant: 0 },
        Event::AcceptAnswer,
        Event::FinishClue,
        Event::Pick { clue: (1, 1) },
        Event::ClueFullyShown,
        Event::Buzz { contestant: 0 },
        Event::AcceptAnswer,
        Event::FinishClue,
    ]);
    let r = g.get_game_state();

    for category in test_board.categories.iter_mut() {
        for clue in category.clues.iter_mut() {
            clue.solved = true;
        }
    }

    assert_eq!(r.board, test_board);
    assert_eq!(r.contestants.len(), 1);
    assert_eq!(r.contestants[0].name, Some("Test Contestant".to_owned()));
    // 200 + 100 + 200 accepted, 100 rejected
    assert_eq!(r.contestants[0].points, 400 as Points);
    assert!(matches!(r.phase, GamePhase::Score));
}

#[test]
fn new_game_is_empty_and_preparing() {
    let r = Game::new().get_game_state();
    assert!(r.contestants.is_empty());
    assert!(r.board.categories.is_empty());
    assert_eq!(r.phase, GamePhase::Preparing);
}

#[test]
fn wrong_phase_leaves_game_unchanged() {
    let mut g = lobby_with(get_test_board(2, 2), 1);
    let before = g.get_game_state();
    let cases = vec![
        Event::LoadBoard(get_test_board(1, 1)),
        Event::OpenLobby,
        Event::Settings,
        Event::Pick { clue: (0, 0) },
        Event::SetWage { points: 10 },
        Event::ClueFullyShown,
        Event::AcceptAnswer,
        Event::RejectAnswer,
        Event::RevealHint,
        Event::FinishClue,
    ];
    for e in cases {
        match g.apply(e) {
            Err(Error::WrongPhase { is }) => assert_eq!(is, GamePhase::Connecting),
            other => panic!("expected WrongPhase, got {:?}", other),
        }
        assert_eq!(g.get_game_state(), before);
    }
}

#[test]
fn load_board_twice_keeps_second() {
    let mut once = Game::new();
    once.apply(Event::LoadBoard(get_test_board(1, 3))).unwrap();
    let mut twice = Game::new();
    twice.apply(Event::LoadBoard(get_test_board(2, 2))).unwrap();
    twice.apply(Event::LoadBoard(get_test_board(1, 3))).unwrap();
    assert_eq!(once.get_game_state(), twice.get_game_state());
    assert_eq!(twice.get_game_state().board, get_test_board(1, 3));
}

#[test]
fn settings_only_in_preparing() {
    let mut g = Game::new();
    let before = g.get_game_state();
    assert_eq!(g.apply(Event::Settings).unwrap(), before);
    g.apply(Event::OpenLobby).unwrap();
    assert!(matches!(g.apply(Event::Settings), Err(Error::WrongPhase { is: GamePhase::Connecting })));
}

#[test]
fn connect_adds_contestant() {
    let g = lobby_with(get_test_board(1, 1), 2);
    let r = g.get_game_state();
    assert_eq!(r.contestants.len(), 2);
    assert_eq!(r.contestants[1].name, None);
    assert_eq!(r.contestants[1].name_hint, "hint 1");
    assert_eq!(r.contestants[1].points, 0);
    assert!(r.contestants[1].connected);
    assert!(!r.contestants[1].indicate);
}

#[test]
fn start_without_contestants_is_refused() {
    let mut g = lobby_with(get_test_board(1, 1), 0);
    assert!(matches!(g.apply(Event::StartGame), Err(Error::NoContestants)));
    assert_eq!(g.get_game_state().phase, GamePhase::Connecting);
}

#[test]
fn unknown_contestant_is_refused() {
    let mut g = lobby_with(get_test_board(1, 1), 1);
    for e in [
        Event::Buzz { contestant: 1 },
        Event::DisconnectContestant { contestant: 3 },
        Event::ReconnectContestant { contestant: 1 },
        Event::NameContestant { index: 1, name: "x".to_owned() },
        Event::AwardPoints { contestant: 1, points: 5 },
        Event::RevokePoints { contestant: 1, points: 5 },
    ] {
        assert!(matches!(g.apply(e), Err(Error::ContestantNotFound)));
    }
}

#[test]
fn unknown_or_played_clue_is_refused() {
    let mut g = lobby_with(get_test_board(2, 2), 1);
    g.apply(Event::StartGame).unwrap();
    assert!(matches!(g.apply(Event::Pick { clue: (2, 0) }), Err(Error::ClueNotFound)));
    assert!(matches!(g.apply(Event::Pick { clue: (0, 2) }), Err(Error::ClueNotFound)));
    for e in [Event::Pick { clue: (0, 0) }, Event::FinishClue, Event::FinishClue] {
        g.apply(e).unwrap();
    }
    assert!(matches!(g.apply(Event::Pick { clue: (0, 0) }), Err(Error::ClueSolved)));
    assert!(matches!(g.get_game_state().phase, GamePhase::Picking { contestant: 0 }));
}

#[test]
fn buzz_in_connecting_toggles_indicator() {
    let mut g = lobby_with(get_test_board(1, 1), 2);
    let r = g.apply(Event::Buzz { contestant: 1 }).unwrap();
    assert_eq!(r.phase, GamePhase::Connecting);
    assert!(r.contestants[1].indicate);
    assert!(!r.contestants[0].indicate);
    let r = g.apply(Event::Buzz { contestant: 1 }).unwrap();
    assert_eq!(r.phase, GamePhase::Connecting);
    assert!(!r.contestants[1].indicate);
}

#[test]
fn disconnect_while_buzzed_stalls() {
    let mut g = lobby_with(get_test_board(1, 2), 2);
    for e in [Event::StartGame, Event::Pick { clue: (0, 1) }, Event::ClueFullyShown, Event::Buzz { contestant: 1 }] {
        g.apply(e).unwrap();
    }
    let r = g.apply(Event::DisconnectContestant { contestant: 1 }).unwrap();
    assert_eq!(r.phase, GamePhase::Buzzed { clue: (0, 1), contestant: 1 });
    assert!(!r.contestants[1].connected);
    let r = g.apply(Event::ReconnectContestant { contestant: 1 }).unwrap();
    assert_eq!(r.phase, GamePhase::Buzzed { clue: (0, 1), contestant: 1 });
    assert!(r.contestants[1].connected);
    let r = g.apply(Event::FinishClue).unwrap();
    assert_eq!(r.phase, GamePhase::Resolution { clue: (0, 1), contestant: 1, show_hint: false });
    assert_eq!(r.contestants[1].points, 0);
}

#[test]
fn buzz_indicates_only_buzzer() {
    let mut g = lobby_with(get_test_board(1, 1), 3);
    g.apply(Event::Buzz { contestant: 0 }).unwrap();
    for e in [Event::StartGame, Event::Pick { clue: (0, 0) }, Event::ClueFullyShown] {
        g.apply(e).unwrap();
    }
    let r = g.apply(Event::Buzz { contestant: 2 }).unwrap();
    let lit: Vec<bool> = r.contestants.iter().map(|c| c.indicate).collect();
    assert_eq!(lit, vec![false, false, true]);
    assert_eq!(r.phase, GamePhase::Buzzed { clue: (0, 0), contestant: 2 });
}

#[test]
fn answers_count_once() {
    let mut g = lobby_with(get_test_board(1, 2), 2);
    for e in [Event::StartGame, Event::Pick { clue: (0, 1) }, Event::ClueFullyShown, Event::Buzz { contestant: 0 }] {
        g.apply(e).unwrap();
    }
    let r = g.apply(Event::RejectAnswer).unwrap();
    assert_eq!(r.contestants[0].points, -200);
    assert!(!r.contestants[0].indicate);
    assert_eq!(r.phase, GamePhase::Buzzing { clue: (0, 1) });
    assert!(matches!(g.apply(Event::RejectAnswer), Err(Error::WrongPhase { .. })));
    assert!(matches!(g.apply(Event::AcceptAnswer), Err(Error::WrongPhase { .. })));
    g.apply(Event::Buzz { contestant: 1 }).unwrap();
    let r = g.apply(Event::AcceptAnswer).unwrap();
    assert_eq!(r.contestants[1].points, 200);
    assert_eq!(r.contestants[0].points, -200);
    assert_eq!(r.phase, GamePhase::Resolution { clue: (0, 1), contestant: 1, show_hint: false });
    assert!(matches!(g.apply(Event::AcceptAnswer), Err(Error::WrongPhase { .. })));
    let r = g.apply(Event::RevealHint).unwrap();
    assert_eq!(r.phase, GamePhase::Resolution { clue: (0, 1), contestant: 1, show_hint: true });
    let r = g.apply(Event::FinishClue).unwrap();
    assert_eq!(r.contestants[1].points, 200);
    assert_eq!(r.phase, GamePhase::Picking { contestant: 1 });
}

#[test]
fn exclusive_clue_skips_buzzing() {
    let mut board = get_test_board(1, 2);
    board.categories[0].clues[1].exclusive = true;
    let mut g = lobby_with(board, 2);
    g.apply(Event::StartGame).unwrap();
    let r = g.apply(Event::Pick { clue: (0, 1) }).unwrap();
    assert_eq!(r.phase, GamePhase::Clue { clue: (0, 1), exclusive: Some(0) });
    let r = g.apply(Event::ClueFullyShown).unwrap();
    assert_eq!(r.phase, GamePhase::Buzzed { clue: (0, 1), contestant: 0 });
    let r = g.apply(Event::Pick { clue: (0, 0) });
    assert!(r.is_err());
}

#[test]
fn plain_clue_opens_buzzing() {
    let mut g = lobby_with(get_test_board(1, 2), 1);
    g.apply(Event::StartGame).unwrap();
    let r = g.apply(Event::Pick { clue: (0, 0) }).unwrap();
    assert_eq!(r.phase, GamePhase::Clue { clue: (0, 0), exclusive: None });
    let r = g.apply(Event::ClueFullyShown).unwrap();
    assert_eq!(r.phase, GamePhase::Buzzing { clue: (0, 0) });
}

#[test]
fn chosen_contestant_rotates_with_played_clues() {
    let mut g = lobby_with(get_test_board(1, 3), 2);
    let r = g.apply(Event::StartGame).unwrap();
    assert_eq!(r.phase, GamePhase::Picking { contestant: 0 });
    g.apply(Event::Pick { clue: (0, 0) }).unwrap();
    g.apply(Event::ClueFullyShown).unwrap();
    // nobody buzzed: one played clue, two contestants
    let r = g.apply(Event::FinishClue).unwrap();
    assert_eq!(r.phase, GamePhase::Resolution { clue: (0, 0), contestant: 1, show_hint: false });
    let r = g.apply(Event::FinishClue).unwrap();
    assert_eq!(r.phase, GamePhase::Picking { contestant: 1 });
    g.apply(Event::Pick { clue: (0, 2) }).unwrap();
    let r = g.apply(Event::FinishClue).unwrap();
    assert_eq!(r.phase, GamePhase::Resolution { clue: (0, 2), contestant: 0, show_hint: false });
}

#[test]
fn all_solved_ends_in_score() {
    let mut g = lobby_with(get_test_board(1, 1), 1);
    for e in [Event::StartGame, Event::Pick { clue: (0, 0) }, Event::FinishClue] {
        g.apply(e).unwrap();
    }
    let r = g.apply(Event::FinishClue).unwrap();
    assert_eq!(r.phase, GamePhase::Score);
    assert!(r.board.categories[0].clues[0].solved);
    assert!(matches!(g.apply(Event::Pick { clue: (0, 0) }), Err(Error::WrongPhase { is: GamePhase::Score })));
    let r = g.apply(Event::Buzz { contestant: 0 }).unwrap();
    assert_eq!(r.phase, GamePhase::Score);
    assert!(r.contestants[0].indicate);
}

#[test]
fn award_and_revoke_saturate() {
    let mut g = lobby_with(get_test_board(1, 1), 1);
    let r = g.apply(Event::AwardPoints { contestant: 0, points: 250 }).unwrap();
    assert_eq!(r.contestants[0].points, 250);
    let r = g.apply(Event::RevokePoints { contestant: 0, points: 300 }).unwrap();
    assert_eq!(r.contestants[0].points, -50);
    let r = g.apply(Event::AwardPoints { contestant: 0, points: i32::MAX }).unwrap();
    assert_eq!(r.contestants[0].points, i32::MAX - 50);
    let r = g.apply(Event::AwardPoints { contestant: 0, points: 100 }).unwrap();
    assert_eq!(r.contestants[0].points, i32::MAX);
    let r = g.apply(Event::RevokePoints { contestant: 0, points: i32::MIN }).unwrap();
    assert_eq!(r.contestants[0].points, i32::MAX);
    g.apply(Event::RevokePoints { contestant: 0, points: i32::MAX }).unwrap();
    g.apply(Event::RevokePoints { contestant: 0, points: i32::MAX }).unwrap();
    let r = g.apply(Event::RevokePoints { contestant: 0, points: i32::MAX }).unwrap();
    assert_eq!(r.contestants[0].points, i32::MIN);
}

#[test]
fn naming_keeps_hint() {
    let mut g = lobby_with(get_test_board(1, 1), 1);
    let r = g.apply(Event::NameContestant { index: 0, name: "Ada".to_owned() }).unwrap();
    assert_eq!(r.contestants[0].name, Some("Ada".to_owned()));
    assert_eq!(r.contestants[0].name_hint, "hint 0");
}

#[test]
fn all_disconnected_after_mark() {
    let mut g = lobby_with(get_test_board(1, 1), 3);
    g.mark_all_contestants_as_disconnected();
    let r: GameState = g.get_game_state();
    assert!(r.contestants.iter().all(|c| !c.connected));
    assert_eq!(r.contestants.len(), 3);
    assert_eq!(r.phase, GamePhase::Connecting);
}
