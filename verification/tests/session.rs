use snake_client::components::{Color, Direction, Position};
use snake_client::error::ProtocolViolation;
use snake_client::packets::{Ready, SpawnSnake, StartNewGameAck};
use snake_client::session::{Phase, Session};
use snake_client::world::World;

fn color(red: f32, green: f32, blue: f32) -> Color {
    Color { red: red.to_bits(), green: green.to_bits(), blue: blue.to_bits() }
}

fn spawn(id: u32, x: i32, y: i32) -> SpawnSnake {
    SpawnSnake { id, position: Position { x, y }, color: color(0.25, 0.5, 1.0) }
}

fn pre_game_session(num_snakes: u32, client_id: u32) -> Session {
    let mut session = Session::new();
    session.wait_for_ack(Some(vec![StartNewGameAck { num_snakes, client_id }]));
    session
}

#[test]
fn new_session_is_connecting() {
    let session = Session::new();
    assert_eq!(session.phase(), Phase::ConnectingToServer);
    assert_eq!(session.next_id(), 0);
    assert_eq!(session.num_snakes_to_spawn(), 0);
    assert_eq!(session.client_id(), None);
}

#[test]
fn ack_opens_pre_game() {
    let mut session = Session::new();
    session.wait_for_ack(Some(vec![StartNewGameAck { num_snakes: 3, client_id: 2 }]));
    assert_eq!(session.phase(), Phase::PreGame);
    assert_eq!(session.num_snakes_to_spawn(), 3);
    assert_eq!(session.client_id(), Some(2));
    assert_eq!(session.next_id(), 0);
}

#[test]
fn first_ack_of_a_batch_is_taken() {
    let mut session = Session::new();
    session.wait_for_ack(Some(vec![
        StartNewGameAck { num_snakes: 4, client_id: 1 },
        StartNewGameAck { num_snakes: 9, client_id: 8 },
    ]));
    assert_eq!(session.phase(), Phase::PreGame);
    assert_eq!(session.num_snakes_to_spawn(), 4);
    assert_eq!(session.client_id(), Some(1));
}

#[test]
fn no_ack_keeps_connecting() {
    let mut session = Session::new();
    session.wait_for_ack(None);
    assert_eq!(session, Session::new());
    session.wait_for_ack(Some(vec![]));
    assert_eq!(session, Session::new());
    assert_eq!(session.phase(), Phase::ConnectingToServer);
}

#[test]
fn ack_after_connecting_is_ignored() {
    let mut session = pre_game_session(2, 1);
    let before = session;
    session.wait_for_ack(Some(vec![StartNewGameAck { num_snakes: 7, client_id: 5 }]));
    assert_eq!(session, before);
    assert_eq!(session.client_id(), Some(1));
    assert_eq!(session.num_snakes_to_spawn(), 2);
}

#[test]
fn spawn_advances_next_id_by_one() {
    let mut session = pre_game_session(3, 0);
    let mut world = World::new();
    assert_eq!(session.pre_game(&mut world, Some(vec![spawn(0, 1, 1)])), Ok(None));
    assert_eq!(session.next_id(), 1);
    assert_eq!(session.num_snakes_to_spawn(), 2);
    assert_eq!(session.pre_game(&mut world, Some(vec![spawn(1, 2, 2)])), Ok(None));
    assert_eq!(session.next_id(), 2);
    assert_eq!(session.num_snakes_to_spawn(), 1);
    assert_eq!(world.snakes.len(), 2);
    assert_eq!(world.snakes[0].head.id, 0);
    assert_eq!(world.snakes[1].head.id, 1);
}

#[test]
fn spawned_snake_has_record_values() {
    let mut session = pre_game_session(2, 0);
    let mut world = World::new();
    let record = SpawnSnake {
        id: 0,
        position: Position { x: -4, y: 9 },
        color: color(0.1, 0.2, 0.3),
    };
    assert_eq!(session.pre_game(&mut world, Some(vec![record])), Ok(None));
    let snake = &world.snakes[0];
    assert_eq!(snake.head.id, 0);
    assert_eq!(snake.position, Position { x: -4, y: 9 });
    assert_eq!(snake.head.color, color(0.1, 0.2, 0.3));
    assert_eq!(f32::from_bits(snake.head.color.green), 0.2);
    assert_eq!(snake.head.direction, Direction::Up);
    assert_eq!(snake.head.input_direction, Direction::Up);
    assert!(snake.head.tail.is_empty());
}

#[test]
fn duplicate_spawn_is_skipped_and_ready_sent_once() {
    let mut session = pre_game_session(2, 0);
    let mut world = World::new();
    let batch = vec![spawn(0, 1, 1), spawn(0, 1, 1), spawn(1, 5, 5)];
    assert_eq!(session.pre_game(&mut world, Some(batch)), Ok(Some(Ready)));
    assert_eq!(world.snakes.len(), 2);
    assert_eq!(world.snakes[0].head.id, 0);
    assert_eq!(world.snakes[1].head.id, 1);
    assert_eq!(session.num_snakes_to_spawn(), 0);
    assert_eq!(session.next_id(), 2);
    assert_eq!(session.phase(), Phase::Running);
    assert_eq!(session.pre_game(&mut world, Some(vec![spawn(1, 5, 5)])), Ok(None));
    assert_eq!(session.pre_game(&mut world, Some(vec![])), Ok(None));
    assert_eq!(world.snakes.len(), 2);
    assert_eq!(session.phase(), Phase::Running);
}

#[test]
fn ready_waits_for_the_last_snake() {
    let mut session = pre_game_session(2, 0);
    let mut world = World::new();
    assert_eq!(session.pre_game(&mut world, None), Ok(None));
    assert_eq!(session.pre_game(&mut world, Some(vec![spawn(0, 0, 0)])), Ok(None));
    assert_eq!(session.phase(), Phase::PreGame);
    assert_eq!(session.pre_game(&mut world, None), Ok(None));
    assert_eq!(session.pre_game(&mut world, Some(vec![spawn(0, 0, 0)])), Ok(None));
    assert_eq!(session.num_snakes_to_spawn(), 1);
    assert_eq!(session.pre_game(&mut world, Some(vec![spawn(1, 3, 3)])), Ok(Some(Ready)));
    assert_eq!(session.phase(), Phase::Running);
}

#[test]
fn num_snakes_to_spawn_never_grows() {
    let mut session = pre_game_session(3, 0);
    let mut world = World::new();
    let batches = vec![
        Some(vec![spawn(0, 0, 0)]),
        None,
        Some(vec![spawn(0, 0, 0), spawn(1, 1, 1)]),
        Some(vec![]),
        Some(vec![spawn(2, 2, 2)]),
        Some(vec![spawn(2, 2, 2)]),
    ];
    let mut last = session.num_snakes_to_spawn();
    let mut readies = 0;
    for batch in batches {
        let sent = session.pre_game(&mut world, batch).unwrap();
        if sent.is_some() {
            readies += 1;
            assert_eq!(session.num_snakes_to_spawn(), 0);
        }
        assert!(session.num_snakes_to_spawn() <= last);
        last = session.num_snakes_to_spawn();
    }
    assert_eq!(readies, 1);
    assert_eq!(last, 0);
}

#[test]
fn no_declared_snakes_is_ready_on_first_batch() {
    let mut session = pre_game_session(0, 0);
    let mut world = World::new();
    assert_eq!(session.pre_game(&mut world, None), Ok(None));
    assert_eq!(session.phase(), Phase::PreGame);
    assert_eq!(session.pre_game(&mut world, Some(vec![])), Ok(Some(Ready)));
    assert_eq!(session.phase(), Phase::Running);
    assert!(world.snakes.is_empty());
}

#[test]
fn spawn_gap_is_fatal() {
    let mut session = pre_game_session(3, 0);
    let mut world = World::new();
    let batch = vec![spawn(0, 0, 0), spawn(2, 2, 2), spawn(1, 1, 1)];
    assert_eq!(
        session.pre_game(&mut world, Some(batch)),
        Err(ProtocolViolation::UnexpectedSnakeId { received: 2, expected: 1 })
    );
    assert_eq!(world.snakes.len(), 1);
    assert_eq!(session.next_id(), 1);
    assert_eq!(session.num_snakes_to_spawn(), 2);
    assert_eq!(session.phase(), Phase::PreGame);
}

#[test]
fn more_snakes_than_declared_is_fatal() {
    let mut session = pre_game_session(1, 0);
    let mut world = World::new();
    let batch = vec![spawn(0, 0, 0), spawn(1, 1, 1)];
    assert_eq!(session.pre_game(&mut world, Some(batch)), Err(ProtocolViolation::TooManySnakes));
    assert_eq!(world.snakes.len(), 1);
    assert_eq!(session.next_id(), 1);
    assert_eq!(session.num_snakes_to_spawn(), 0);
    assert_eq!(session.phase(), Phase::PreGame);
}

#[test]
fn pre_game_does_nothing_while_connecting() {
    let mut session = Session::new();
    let mut world = World::new();
    assert_eq!(session.pre_game(&mut world, Some(vec![spawn(0, 0, 0)])), Ok(None));
    assert_eq!(session, Session::new());
    assert!(world.snakes.is_empty());
}

#[test]
fn far_identifier_is_a_gap() {
    let mut session = pre_game_session(2, 0);
    let mut world = World::new();
    assert_eq!(
        session.pre_game(&mut world, Some(vec![spawn(u32::MAX, 0, 0)])),
        Err(ProtocolViolation::UnexpectedSnakeId { received: u32::MAX, expected: 0 })
    );
    assert_eq!(session.next_id(), 0);
}
