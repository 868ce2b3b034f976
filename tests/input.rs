use roguelike::input::{read_command, read_movement, read_wait, Key};
use roguelike::player::PlayerCommand;

#[test]
fn keys_map_to_directions() {
    assert_eq!(read_movement(&vec![]), (0, 0));
    assert_eq!(read_movement(&vec![Key::Numpad1]), (-1, -1));
    assert_eq!(read_movement(&vec![Key::ArrowDown]), (0, -1));
    assert_eq!(read_movement(&vec![Key::KeyC]), (1, -1));
    assert_eq!(read_movement(&vec![Key::KeyA]), (-1, 0));
    assert_eq!(read_movement(&vec![Key::ArrowRight]), (1, 0));
    assert_eq!(read_movement(&vec![Key::KeyQ]), (-1, 1));
    assert_eq!(read_movement(&vec![Key::KeyW]), (0, 1));
    assert_eq!(read_movement(&vec![Key::Numpad9]), (1, 1));
}

#[test]
fn later_keys_win_on_each_axis() {
    assert_eq!(read_movement(&vec![Key::Numpad1, Key::Numpad6]), (1, -1));
    assert_eq!(read_movement(&vec![Key::Numpad8, Key::Numpad2]), (0, 1));
}

#[test]
fn wait_keys_and_commands() {
    assert!(read_wait(&vec![Key::Numpad5]));
    assert!(read_wait(&vec![Key::ControlRight]));
    assert!(!read_wait(&vec![Key::KeyW]));
    assert_eq!(read_command(&vec![Key::KeyW, Key::ControlLeft]), PlayerCommand::Wait);
    assert_eq!(read_command(&vec![Key::KeyD]), PlayerCommand::Move(1, 0));
    assert_eq!(read_command(&vec![]), PlayerCommand::Idle);
}
