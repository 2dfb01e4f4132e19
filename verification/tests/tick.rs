use arena::{Client, ClientState, Direction, Game, Message, Position, PENALTY, REWARD};
use tokio::sync::mpsc::{unbounded_channel, UnboundedReceiver};

fn seat(game: &mut Game, id: u16, x: u16, y: u16) -> UnboundedReceiver<String> {
    let (tx, rx) = unbounded_channel::<String>();
    assert!(game.get_total_clients() < game.get_max_clients());
    assert!(!game.has_client(id));
    assert!(game.field().contains(&Position::new(x, y)));
    game.add_client(Client::new(id, Position::new(x, y), tx, 7));
    rx
}

fn seat_with_score(
    game: &mut Game,
    id: u16,
    x: u16,
    y: u16,
    score: i32,
) -> UnboundedReceiver<String> {
    let (tx, rx) = unbounded_channel::<String>();
    let mut client = Client::new(id, Position::new(x, y), tx, 7);
    client.adjust_score(score);
    game.add_client(client);
    rx
}

#[test]
fn two_clients_on_one_cell_are_penalised_and_sent_elsewhere() {
    let mut game = Game::new(4, 4, 2);
    let mut first = seat(&mut game, 1, 2, 2);
    let mut second = seat(&mut game, 2, 2, 2);
    assert!(game.can_tick());
    game.tick();
    assert_eq!(game.broadcast(), 2);
    for (id, rx) in [(1, &mut first), (2, &mut second)] {
        let state = game.client_state(id).unwrap();
        assert_eq!(state.score, -5);
        assert!(state.position.x < 4 && state.position.y < 4);
        assert_eq!(state.old_position, Position::new(2, 2));
        // Position, then score, and nothing else.
        let position = Message::from_json(&rx.try_recv().unwrap());
        assert_eq!(position, Ok(Message::Position(state.position)));
        let score = Message::from_json(&rx.try_recv().unwrap());
        assert_eq!(score, Ok(Message::Score(-5)));
        assert!(rx.try_recv().is_err());
    }
}

#[test]
fn a_client_alone_on_its_cell_is_rewarded_and_stays() {
    let mut game = Game::new(4, 4, 2);
    let _rx = seat(&mut game, 1, 3, 1);
    game.adjust_position(1, Direction::Left);
    assert_eq!(game.client_state(1).unwrap().old_position, Position::new(3, 1));
    game.tick();
    assert_eq!(
        game.client_state(1),
        Some(ClientState {
            id: 1,
            position: Position::new(2, 1),
            old_position: Position::new(2, 1),
            score: 1,
            color: 7,
        })
    );
    game.tick();
    game.tick();
    assert_eq!(game.client_state(1).unwrap().score, 3);
    assert_eq!(game.client_state(1).unwrap().position, Position::new(2, 1));
}

#[test]
fn a_tick_on_an_empty_game_does_nothing() {
    let mut game = Game::new(4, 4, 2);
    assert!(game.can_tick());
    game.tick();
    assert_eq!(game.get_total_clients(), 0);
    assert_eq!(game.broadcast(), 0);
}

#[test]
fn each_group_is_judged_by_its_size_before_anyone_moves() {
    let mut game = Game::new(6, 6, 6);
    let _a = seat(&mut game, 1, 0, 0);
    let _b = seat(&mut game, 2, 5, 5);
    let _c = seat(&mut game, 3, 0, 0);
    let _d = seat(&mut game, 4, 3, 3);
    let _e = seat(&mut game, 5, 0, 0);
    let _f = seat(&mut game, 6, 3, 4);
    game.tick();
    let states = game.snapshot();
    let ids: Vec<u16> = states.iter().map(|s| s.id).collect();
    assert_eq!(ids, vec![1, 2, 3, 4, 5, 6]);
    for state in &states {
        match state.id {
            1 | 3 | 5 => {
                assert_eq!(state.score, -PENALTY);
                assert_eq!(state.old_position, Position::new(0, 0));
                assert!(state.position.x < 6 && state.position.y < 6);
            }
            2 => {
                assert_eq!(state.score, REWARD);
                assert_eq!(state.position, Position::new(5, 5));
                assert_eq!(state.old_position, Position::new(5, 5));
            }
            4 => {
                assert_eq!(state.score, REWARD);
                assert_eq!(state.position, Position::new(3, 3));
            }
            _ => {
                assert_eq!(state.score, REWARD);
                assert_eq!(state.position, Position::new(3, 4));
            }
        }
        assert_eq!(state.color, 7);
    }
    // The sum over the group of three is three penalties; each lone client
    // is a group whose sum is one reward.
    let group: i32 = states.iter().filter(|s| [1, 3, 5].contains(&s.id)).map(|s| s.score).sum();
    assert_eq!(group, -15);
}

#[test]
fn on_a_grid_of_one_cell_a_collision_repeats_at_every_tick() {
    let mut game = Game::new(1, 1, 2);
    let _a = seat(&mut game, 1, 0, 0);
    let _b = seat(&mut game, 2, 0, 0);
    for round in 1..=4 {
        game.tick();
        for id in [1, 2] {
            let state = game.client_state(id).unwrap();
            assert_eq!(state.score, -5 * round);
            assert_eq!(state.position, Position::new(0, 0));
        }
    }
}

#[test]
fn two_clients_on_different_cells_do_not_collide() {
    let mut game = Game::new(300, 300, 2);
    // These two cells differ in both coordinates, and swapped.
    let _a = seat(&mut game, 1, 1, 256);
    let _b = seat(&mut game, 2, 256, 1);
    game.tick();
    assert_eq!(game.client_state(1).unwrap().score, 1);
    assert_eq!(game.client_state(2).unwrap().score, 1);
    assert_eq!(game.client_state(1).unwrap().position, Position::new(1, 256));
    assert_eq!(game.client_state(2).unwrap().position, Position::new(256, 1));
}

#[test]
fn a_move_before_the_tick_decides_who_collides() {
    let mut game = Game::new(5, 5, 2);
    let _a = seat(&mut game, 1, 1, 1);
    let _b = seat(&mut game, 2, 2, 1);
    game.on_new_message(2, String::from("{\"Move\":\"Left\"}"));
    game.tick();
    assert_eq!(game.client_state(1).unwrap().score, -5);
    assert_eq!(game.client_state(2).unwrap().score, -5);
    assert_eq!(game.client_state(2).unwrap().old_position, Position::new(1, 1));
}

#[test]
fn a_tick_fits_up_to_the_ends_of_the_score_range() {
    let mut game = Game::new(4, 4, 3);
    let _a = seat_with_score(&mut game, 1, 0, 0, i32::MAX - 1);
    let _b = seat_with_score(&mut game, 2, 1, 1, i32::MIN + 5);
    let _c = seat_with_score(&mut game, 3, 1, 1, i32::MIN + 5);
    assert!(game.can_tick());
    game.tick();
    assert_eq!(game.client_state(1).unwrap().score, i32::MAX);
    assert_eq!(game.client_state(2).unwrap().score, i32::MIN);
    assert_eq!(game.client_state(3).unwrap().score, i32::MIN);
}

#[test]
fn a_tick_does_not_fit_where_a_score_has_no_room() {
    let mut game = Game::new(4, 4, 3);
    let _a = seat_with_score(&mut game, 1, 0, 0, i32::MAX);
    assert!(!game.can_tick());
    // The same score has room for a penalty.
    let _b = seat_with_score(&mut game, 2, 0, 0, 0);
    assert!(game.can_tick());
    let mut game = Game::new(4, 4, 3);
    let _a = seat_with_score(&mut game, 1, 0, 0, i32::MIN + 4);
    // Alone, a low score has room for a reward.
    assert!(game.can_tick());
    let _b = seat_with_score(&mut game, 2, 0, 0, 0);
    assert!(!game.can_tick());
}

#[test]
fn a_broadcast_goes_on_past_a_channel_that_is_gone() {
    let mut game = Game::new(4, 4, 3);
    let mut first = seat(&mut game, 1, 0, 0);
    let second = seat(&mut game, 2, 1, 1);
    let mut third = seat(&mut game, 3, 2, 2);
    drop(second);
    game.tick();
    assert_eq!(game.broadcast(), 2);
    assert_eq!(first.try_recv().unwrap(), "{\"Position\":{\"x\":0,\"y\":0}}");
    assert_eq!(first.try_recv().unwrap(), "{\"Score\":1}");
    assert_eq!(third.try_recv().unwrap(), "{\"Position\":{\"x\":2,\"y\":2}}");
    assert_eq!(third.try_recv().unwrap(), "{\"Score\":1}");
    // The client whose channel is gone is still registered, and scored.
    assert_eq!(game.get_total_clients(), 3);
    assert_eq!(game.client_state(2).unwrap().score, 1);
}

#[test]
fn a_broadcast_changes_nothing_in_the_game() {
    let mut game = Game::new(4, 4, 3);
    let mut first = seat(&mut game, 1, 0, 0);
    let before = game.snapshot();
    assert_eq!(game.broadcast(), 1);
    assert_eq!(game.broadcast(), 1);
    assert_eq!(game.snapshot(), before);
    assert_eq!(first.try_recv().unwrap(), "{\"Position\":{\"x\":0,\"y\":0}}");
    assert_eq!(first.try_recv().unwrap(), "{\"Score\":0}");
    assert_eq!(first.try_recv().unwrap(), "{\"Position\":{\"x\":0,\"y\":0}}");
    assert_eq!(first.try_recv().unwrap(), "{\"Score\":0}");
}

#[test]
fn a_tick_keeps_the_engine_flag_and_the_id_counter() {
    let mut game = Game::new(4, 4, 3);
    let _a = seat(&mut game, 1, 0, 0);
    assert!(game.try_start());
    game.tick();
    assert!(game.is_running());
    assert_eq!(game.create_id(), Ok(2));
    assert_eq!(game.get_max_clients(), 3);
}
