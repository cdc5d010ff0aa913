use snake_client::components::{Color, Position, Snake};
use snake_client::directory::Directory;
use snake_client::world::World;

fn world_with(ids: &[u32]) -> World {
    let color = Color { red: 0, green: 0, blue: 0 };
    World {
        snakes: ids.iter().map(|id| Snake::spawned(*id, Position { x: 0, y: 0 }, color)).collect(),
    }
}

#[test]
fn empty_world_has_empty_directory() {
    let directory = Directory::build(&World::new());
    assert_eq!(directory.lookup(0), None);
    assert_eq!(directory.lookup(17), None);
}

#[test]
fn directory_finds_each_snake() {
    let directory = Directory::build(&world_with(&[10, 20, 5]));
    assert_eq!(directory.lookup(10), Some(0));
    assert_eq!(directory.lookup(20), Some(1));
    assert_eq!(directory.lookup(5), Some(2));
    assert_eq!(directory.lookup(0), None);
    assert_eq!(directory.lookup(2), None);
}

#[test]
fn directory_finds_last_of_duplicates() {
    let directory = Directory::build(&world_with(&[7, 3, 7, 3, 1]));
    assert_eq!(directory.lookup(7), Some(2));
    assert_eq!(directory.lookup(3), Some(3));
    assert_eq!(directory.lookup(1), Some(4));
}
