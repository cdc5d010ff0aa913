use snake_client::client::{Client, Inbound, Outbound};
use snake_client::components::{Color, Direction, Position};
use snake_client::error::ProtocolViolation;
use snake_client::input::PressedKeys;
use snake_client::packets::{
    Ready, SnakeMovement, SnakeOrientation, SnakePositions, SpawnSnake, SpawnTail, StartNewGameAck,
};
use snake_client::session::Phase;

const NO_KEYS: PressedKeys = PressedKeys { left: false, down: false, up: false, right: false };
const LEFT: PressedKeys = PressedKeys { left: true, down: false, up: false, right: false };

fn nothing() -> Inbound {
    Inbound { acks: None, spawns: None, positions: None, spawn_tails: None }
}

fn spawn(id: u32) -> SpawnSnake {
    SpawnSnake {
        id,
        position: Position { x: id as i32, y: 0 },
        color: Color { red: 1, green: 2, blue: 3 },
    }
}

fn update(id: u32, x: i32, y: i32, tail: Vec<Position>) -> SnakePositions {
    SnakePositions {
        positions: vec![SnakeOrientation {
            id,
            position: Position { x, y },
            input_direction: Direction::Up,
            direction: Direction::Up,
            tail_positions: tail,
        }],
    }
}

fn running_client() -> Client {
    let mut client = Client::new();
    let ack = StartNewGameAck { num_snakes: 2, client_id: 1 };
    assert_eq!(client.tick(Inbound { acks: Some(vec![ack]), ..nothing() }, NO_KEYS), Ok(None));
    assert_eq!(
        client.tick(Inbound { spawns: Some(vec![spawn(0), spawn(1)]), ..nothing() }, NO_KEYS),
        Ok(Some(Outbound::Ready(Ready)))
    );
    client
}

#[test]
fn client_starts_connecting() {
    let client = Client::new();
    assert_eq!(client.session.phase(), Phase::ConnectingToServer);
    assert!(client.world.snakes.is_empty());
}

#[test]
fn tick_walks_through_the_phases() {
    let mut client = Client::new();
    assert_eq!(client.tick(nothing(), LEFT), Ok(None));
    assert_eq!(client.session.phase(), Phase::ConnectingToServer);
    let ack = StartNewGameAck { num_snakes: 2, client_id: 1 };
    assert_eq!(client.tick(Inbound { acks: Some(vec![ack]), ..nothing() }, LEFT), Ok(None));
    assert_eq!(client.session.phase(), Phase::PreGame);
    assert_eq!(client.tick(Inbound { spawns: Some(vec![spawn(0)]), ..nothing() }, LEFT), Ok(None));
    assert_eq!(client.session.phase(), Phase::PreGame);
    assert_eq!(
        client.tick(Inbound { spawns: Some(vec![spawn(0), spawn(1)]), ..nothing() }, LEFT),
        Ok(Some(Outbound::Ready(Ready)))
    );
    assert_eq!(client.session.phase(), Phase::Running);
    assert_eq!(client.world.snakes.len(), 2);
    assert_eq!(
        client.tick(nothing(), LEFT),
        Ok(Some(Outbound::Movement(SnakeMovement { id: 1, direction: Direction::Left })))
    );
    assert_eq!(client.tick(nothing(), LEFT), Ok(None));
    assert_eq!(client.session.phase(), Phase::Running);
}

#[test]
fn tick_ignores_batches_of_other_phases() {
    let mut client = Client::new();
    let inbound = Inbound {
        acks: None,
        spawns: Some(vec![spawn(0)]),
        positions: Some(vec![update(5, 0, 0, vec![])]),
        spawn_tails: Some(vec![SpawnTail { id: 5, position: Position { x: 0, y: 0 } }]),
    };
    assert_eq!(client.tick(inbound, LEFT), Ok(None));
    assert_eq!(client.session.phase(), Phase::ConnectingToServer);
    assert!(client.world.snakes.is_empty());
    let mut client = running_client();
    let before = client.clone();
    let inbound = Inbound {
        acks: Some(vec![StartNewGameAck { num_snakes: 9, client_id: 0 }]),
        spawns: Some(vec![spawn(7)]),
        positions: None,
        spawn_tails: None,
    };
    assert_eq!(client.tick(inbound, NO_KEYS), Ok(None));
    assert_eq!(client, before);
}

#[test]
fn running_tick_reconciles_then_grows_then_samples() {
    let mut client = running_client();
    let inbound = Inbound {
        acks: None,
        spawns: None,
        positions: Some(vec![update(1, 4, 4, vec![Position { x: 8, y: 8 }])]),
        spawn_tails: Some(vec![SpawnTail { id: 1, position: Position { x: 4, y: 5 } }]),
    };
    assert_eq!(
        client.tick(inbound, LEFT),
        Ok(Some(Outbound::Movement(SnakeMovement { id: 1, direction: Direction::Left })))
    );
    let own = &client.world.snakes[1];
    assert_eq!(own.position, Position { x: 4, y: 4 });
    assert_eq!(own.head.tail.len(), 1);
    assert_eq!(own.head.tail[0].position, Position { x: 4, y: 5 });
    assert_eq!(own.head.tail[0].color, Color { red: 1, green: 2, blue: 3 });
    assert_eq!(own.head.input_direction, Direction::Left);
}

#[test]
fn running_tick_stops_at_a_violation() {
    let mut client = running_client();
    let inbound = Inbound {
        acks: None,
        spawns: None,
        positions: Some(vec![update(5, 4, 4, vec![])]),
        spawn_tails: Some(vec![SpawnTail { id: 1, position: Position { x: 4, y: 5 } }]),
    };
    assert_eq!(client.tick(inbound, LEFT), Err(ProtocolViolation::UnknownSnake { id: 5 }));
    assert_eq!(client, running_client());
    let inbound = Inbound {
        acks: None,
        spawns: None,
        positions: Some(vec![update(0, 4, 4, vec![])]),
        spawn_tails: Some(vec![SpawnTail { id: 6, position: Position { x: 4, y: 5 } }]),
    };
    assert_eq!(client.tick(inbound, LEFT), Err(ProtocolViolation::UnknownSnake { id: 6 }));
    assert_eq!(client.world.snakes[0].position, Position { x: 4, y: 4 });
    assert_eq!(client.world.snakes[1].head.input_direction, Direction::Up);
}

#[test]
fn pre_game_tick_reports_violations() {
    let mut client = Client::new();
    let ack = StartNewGameAck { num_snakes: 1, client_id: 0 };
    assert_eq!(client.tick(Inbound { acks: Some(vec![ack]), ..nothing() }, NO_KEYS), Ok(None));
    assert_eq!(
        client.tick(Inbound { spawns: Some(vec![spawn(1)]), ..nothing() }, NO_KEYS),
        Err(ProtocolViolation::UnexpectedSnakeId { received: 1, expected: 0 })
    );
    assert_eq!(
        client.tick(Inbound { spawns: Some(vec![spawn(0), spawn(1)]), ..nothing() }, NO_KEYS),
        Err(ProtocolViolation::TooManySnakes)
    );
}
