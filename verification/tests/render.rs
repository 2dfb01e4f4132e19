use arena::{Client, Direction, Draw, Game, Position};
use tokio::sync::mpsc::{unbounded_channel, UnboundedReceiver};

fn enter(game: &mut Game, id: u16, x: u16, y: u16, color: u8) -> UnboundedReceiver<String> {
    let (tx, rx) = unbounded_channel::<String>();
    game.add_client(Client::new(id, Position::new(x, y), tx, color));
    rx
}

#[test]
fn a_client_is_placed_by_its_mark() {
    let game = Game::new(4, 4, 2);
    let (tx, _rx) = unbounded_channel::<String>();
    let client = Client::new(5, Position::new(3, 1), tx, 99);
    assert_eq!(
        game.place_client(&client.state),
        Draw::Mark { cell: Position::new(3, 1), color: 99, id: 5 }
    );
}

#[test]
fn a_refresh_of_an_empty_game_draws_nothing() {
    let game = Game::new(4, 4, 2);
    assert!(game.refresh_field().is_empty());
}

#[test]
fn a_refresh_marks_every_client_and_erases_nothing_before_anyone_moved() {
    let mut game = Game::new(4, 4, 3);
    let _a = enter(&mut game, 1, 0, 0, 10);
    let _b = enter(&mut game, 2, 3, 2, 20);
    assert_eq!(
        game.refresh_field(),
        vec![
            Draw::Mark { cell: Position::new(0, 0), color: 10, id: 1 },
            Draw::Mark { cell: Position::new(3, 2), color: 20, id: 2 },
        ]
    );
}

#[test]
fn a_refresh_erases_the_cells_that_were_left_empty() {
    let mut game = Game::new(5, 5, 3);
    let _a = enter(&mut game, 1, 1, 1, 10);
    let _b = enter(&mut game, 2, 2, 1, 20);
    let _c = enter(&mut game, 3, 4, 4, 30);
    // Client 1 moves onto the cell of client 2 and leaves (1,1) empty.
    game.adjust_position(1, Direction::Right);
    // Client 3 moves up to (4,3) and leaves (4,4) empty.
    game.adjust_position(3, Direction::Up);
    assert_eq!(
        game.refresh_field(),
        vec![
            Draw::Mark { cell: Position::new(2, 1), color: 10, id: 1 },
            Draw::Mark { cell: Position::new(2, 1), color: 20, id: 2 },
            Draw::Mark { cell: Position::new(4, 3), color: 30, id: 3 },
            Draw::Erase { cell: Position::new(1, 1) },
            Draw::Erase { cell: Position::new(4, 4) },
        ]
    );
}

#[test]
fn a_refresh_spares_a_cell_that_another_client_took() {
    let mut game = Game::new(5, 5, 3);
    let _a = enter(&mut game, 1, 1, 1, 10);
    let _b = enter(&mut game, 2, 2, 1, 20);
    // Client 2 moves away, then client 1 moves onto the cell it left.
    game.adjust_position(2, Direction::Down);
    game.adjust_position(1, Direction::Right);
    assert_eq!(
        game.refresh_field(),
        vec![
            Draw::Mark { cell: Position::new(2, 1), color: 10, id: 1 },
            Draw::Mark { cell: Position::new(2, 2), color: 20, id: 2 },
            Draw::Erase { cell: Position::new(1, 1) },
        ]
    );
}

#[test]
fn a_snapshot_holds_every_record_in_order() {
    let mut game = Game::new(5, 5, 3);
    let _a = enter(&mut game, 2, 1, 1, 10);
    let _b = enter(&mut game, 1, 2, 1, 20);
    game.adjust_position(1, Direction::Left);
    let states = game.snapshot();
    assert_eq!(states.len(), 2);
    assert_eq!(states[0], game.client_state(2).unwrap());
    assert_eq!(states[1], game.client_state(1).unwrap());
    assert_eq!(states[1].position, Position::new(1, 1));
    assert_eq!(states[1].old_position, Position::new(2, 1));
    assert_eq!(states[1].color, 20);
}
