use dreidel::dreidel::Dreidel;
use dreidel::game::{Game, GameStatus};
use dreidel::player::Player;
use dreidel::IOProvider;
use std::cell::RefCell;

#[derive(Default)]
struct MockIO {
    events: RefCell<Vec<String>>,
}

impl IOProvider for MockIO {
    fn set_up_game(self) -> Game<MockIO> {
        Game {
            current_player: Some(0),
            io_provider: Box::new(self),
            players: Vec::new(),
            pot: 0,
            rng: rand::thread_rng(),
        }
    }

    fn announce_ante(&self, player: &Player, pot: usize) {
        self.events.borrow_mut().push(format!("ante {} {} {}", player.name, player.stake, pot));
    }

    fn announce_no_qualified_player(&self) {
        self.events.borrow_mut().push(String::from("stalled"));
    }

    fn announce_turn(&self, roll: &Dreidel, player: &Player, pot: usize) {
        self.events.borrow_mut().push(format!("turn {:?} {} {} {}", roll, player.name, player.stake, pot));
    }

    fn announce_winner(&self, name: &str) {
        self.events.borrow_mut().push(format!("winner {}", name));
    }
}

fn three_players(stake: usize) -> Game<MockIO> {
    Game::new(
        vec![
            String::from("Ethan"),
            String::from("Madigan"),
            String::from("Milo"),
        ],
        stake,
        MockIO::default(),
    )
}

fn events(game: &Game<MockIO>) -> Vec<String> {
    game.io_provider.events.borrow().clone()
}

#[test]
fn test_new() {
    let game = Game::new(
        vec![String::from("Ethan"), String::from("Madigan")],
        20,
        MockIO::default(),
    );
    assert_eq!(
        game.players,
        vec![
            Player {
                name: String::from("Ethan"),
                stake: 20,
            },
            Player {
                name: String::from("Madigan"),
                stake: 20,
            },
        ]
    );
    assert_eq!(game.pot, 0);
}

#[test]
fn test_advance_player() {
    let mut subject = three_players(10);
    subject.advance_player();
    assert_eq!(Some(1), subject.current_player);
}

#[test]
fn test_advance_player_broke_player() {
    let mut subject = three_players(10);
    subject.players[1].stake = 0;
    subject.advance_player();
    assert_eq!(Some(2), subject.current_player);
}

#[test]
fn test_advance_broke_player_wrapping() {
    let mut subject = three_players(10);
    subject.current_player = Some(1);
    subject.players[2].stake = 0;
    subject.advance_player();
    assert_eq!(Some(0), subject.current_player);
}

#[test]
fn test_everyone_broke() {
    let mut subject = three_players(0);
    subject.advance_player();
    assert_eq!(None, subject.current_player);
}

#[test]
fn test_everyone_broke_false_positive() {
    let mut subject = Game::new(
        vec![String::from("Ethan"), String::from("Madigan")],
        0,
        MockIO::default(),
    );
    subject.players[0].stake = 1;
    subject.advance_player();
    assert_eq!(Some(0), subject.current_player);
}

#[test]
fn test_play_game_winner() {
    let mut subject = three_players(0);
    subject.players[0].stake = 1;
    let mut status = subject.step();
    while status == GameStatus::Running {
        status = subject.step();
    }
    assert_eq!(status, GameStatus::Won(0));
    assert_eq!(events(&subject), vec![String::from("winner Ethan")]);
}

#[test]
fn advance_without_active_player_stays_inactive() {
    let mut subject = three_players(10);
    subject.current_player = None;
    subject.advance_player();
    assert_eq!(None, subject.current_player);
}

#[test]
fn advance_returns_to_current_when_only_one_is_live() {
    let mut subject = three_players(0);
    subject.players[1].stake = 4;
    subject.current_player = Some(1);
    subject.advance_player();
    assert_eq!(Some(1), subject.current_player);
}

#[test]
fn winner_only_when_exactly_one_is_live() {
    let mut subject = three_players(0);
    assert_eq!(subject.get_winner(), None);
    assert!(!subject.has_qualified_player());
    subject.players[2].stake = 3;
    assert_eq!(subject.get_winner(), Some(2));
    assert!(subject.has_qualified_player());
    subject.players[0].stake = 1;
    assert_eq!(subject.get_winner(), None);
    assert!(subject.has_qualified_player());
}

#[test]
fn ante_then_gimel_scenario() {
    let mut subject = Game::new(
        vec![String::from("A"), String::from("B")],
        0,
        MockIO::default(),
    );
    subject.players[0].stake = 10;
    subject.players[1].stake = 15;
    subject.pot = 30;
    subject.play_turn_with(Dreidel::Gimel);
    assert_eq!(subject.players[0].stake, 41);
    assert_eq!(subject.players[1].stake, 14);
    assert_eq!(subject.pot, 0);
    assert_eq!(
        events(&subject),
        vec![
            String::from("ante A 9 31"),
            String::from("ante B 14 32"),
            String::from("turn Gimel A 41 0"),
        ]
    );
}

#[test]
fn ante_of_last_token_scenario() {
    let mut subject = Game::new(
        vec![String::from("A"), String::from("B")],
        0,
        MockIO::default(),
    );
    subject.players[0].stake = 1;
    subject.players[1].stake = 15;
    subject.current_player = Some(1);
    subject.ante();
    assert_eq!(subject.players[0].stake, 0);
    assert_eq!(subject.players[1].stake, 14);
    assert_eq!(subject.pot, 2);
    assert_eq!(events(&subject)[0], String::from("ante A 0 1"));
    subject.advance_player();
    assert_eq!(Some(1), subject.current_player);
    subject.advance_player();
    assert_eq!(Some(1), subject.current_player);
}

#[test]
fn ante_skips_broke_players() {
    let mut subject = three_players(0);
    subject.players[0].stake = 1;
    subject.players[2].stake = 5;
    subject.pot = 3;
    subject.ante();
    assert_eq!(subject.players[0].stake, 0);
    assert_eq!(subject.players[1].stake, 0);
    assert_eq!(subject.players[2].stake, 4);
    assert_eq!(subject.pot, 5);
}

#[test]
fn he_turn_rounds_up_for_spinner() {
    let mut subject = three_players(2);
    subject.pot = 0;
    subject.current_player = Some(2);
    subject.play_turn_with(Dreidel::He);
    assert_eq!(subject.players[0].stake, 1);
    assert_eq!(subject.players[1].stake, 1);
    assert_eq!(subject.players[2].stake, 3);
    assert_eq!(subject.pot, 1);
}

#[test]
fn shin_turn_with_last_token_anted_pays_nothing() {
    let mut subject = three_players(1);
    subject.play_turn_with(Dreidel::Shin);
    assert_eq!(subject.players[0].stake, 0);
    assert_eq!(subject.pot, 3);
}

#[test]
fn turn_without_active_player_changes_nothing() {
    let mut subject = three_players(0);
    subject.current_player = None;
    subject.play_turn_with(Dreidel::Gimel);
    subject.play_turn();
    assert_eq!(subject.pot, 0);
    assert!(events(&subject).is_empty());
}

#[test]
fn all_broke_stalls_at_once() {
    let mut subject = three_players(0);
    assert_eq!(subject.step(), GameStatus::Stalled);
    assert_eq!(subject.pot, 0);
    assert_eq!(events(&subject), vec![String::from("stalled")]);
}

#[test]
fn single_live_player_wins_at_once() {
    let mut subject = three_players(0);
    subject.players[0].stake = 5;
    assert_eq!(subject.step(), GameStatus::Won(0));
    assert_eq!(subject.players[0].stake, 5);
    assert_eq!(events(&subject), vec![String::from("winner Ethan")]);
}

#[test]
fn running_step_passes_turn_and_keeps_tokens() {
    let mut subject = three_players(4);
    let status = subject.step();
    assert_eq!(status, GameStatus::Running);
    assert_eq!(subject.current_player, Some(1));
    let held: usize = subject.players.iter().map(|p| p.stake).sum();
    assert_eq!(held + subject.pot, 12);
}

#[test]
fn random_game_ends_or_keeps_tokens() {
    let mut subject = three_players(3);
    for _ in 0..1000 {
        let status = subject.step();
        let held: usize = subject.players.iter().map(|p| p.stake).sum();
        assert_eq!(held + subject.pot, 9);
        if status != GameStatus::Running {
            return;
        }
    }
}
