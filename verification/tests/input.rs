use tower_of_hanoi::board::Board;
use tower_of_hanoi::input::{
    check_board_inputs, check_game_input, classify, Action, BoardEvent, GameInput, Key, KeyCode,
};

fn key(code: KeyCode) -> Key {
    Key { code, printable: '\0', alt: false }
}

fn letter(printable: char) -> Key {
    Key { code: KeyCode::Char, printable, alt: false }
}

fn with_alt(code: KeyCode) -> Key {
    Key { code, printable: '\0', alt: true }
}

#[test]
fn arrow_keys_ask_for_board_actions() {
    assert_eq!(classify(key(KeyCode::Up)), Action::Grab);
    assert_eq!(classify(key(KeyCode::Down)), Action::Drop);
    assert_eq!(classify(key(KeyCode::Left)), Action::MoveLeft);
    assert_eq!(classify(key(KeyCode::Right)), Action::MoveRight);
    assert_eq!(classify(with_alt(KeyCode::Up)), Action::Grab);
}

#[test]
fn the_letter_r_asks_to_start_over() {
    assert_eq!(classify(letter('r')), Action::Reset);
    assert_eq!(classify(letter('R')), Action::Nothing);
    assert_eq!(classify(letter('x')), Action::Nothing);
    let mut odd = key(KeyCode::Other);
    odd.printable = 'r';
    assert_eq!(classify(odd), Action::Nothing);
}

#[test]
fn enter_confirms_and_with_alt_toggles_fullscreen() {
    assert_eq!(classify(key(KeyCode::Enter)), Action::Confirm);
    assert_eq!(classify(with_alt(KeyCode::Enter)), Action::ToggleFullscreen);
}

#[test]
fn escape_opens_the_menu_and_alt_f4_quits() {
    assert_eq!(classify(key(KeyCode::Escape)), Action::OpenMenu);
    assert_eq!(classify(with_alt(KeyCode::Escape)), Action::OpenMenu);
    assert_eq!(classify(with_alt(KeyCode::F4)), Action::Quit);
    assert_eq!(classify(key(KeyCode::F4)), Action::Nothing);
}

#[test]
fn other_keys_ask_for_nothing() {
    for code in [
        KeyCode::Shift,
        KeyCode::Control,
        KeyCode::Alt,
        KeyCode::LeftWin,
        KeyCode::RightWin,
        KeyCode::Other,
    ] {
        assert_eq!(classify(key(code)), Action::Nothing);
        assert_eq!(classify(with_alt(code)), Action::Nothing);
    }
}

#[test]
fn game_inputs_are_told_apart() {
    assert_eq!(check_game_input(with_alt(KeyCode::Enter)), GameInput::Fullscreen);
    assert_eq!(check_game_input(key(KeyCode::Enter)), GameInput::Nothing);
    assert_eq!(check_game_input(key(KeyCode::Escape)), GameInput::Escape);
    assert_eq!(check_game_input(with_alt(KeyCode::F4)), GameInput::Quit);
    assert_eq!(check_game_input(key(KeyCode::F4)), GameInput::Nothing);
    assert_eq!(check_game_input(key(KeyCode::Up)), GameInput::Nothing);
    assert_eq!(check_game_input(letter('r')), GameInput::Nothing);
}

#[test]
fn board_inputs_work_the_board() {
    let mut board = Board::new(3, 3);
    assert_eq!(check_board_inputs(&mut board, key(KeyCode::Up)), BoardEvent::Grabbed);
    assert_eq!(board.held(), Some(1));
    assert_eq!(check_board_inputs(&mut board, key(KeyCode::Up)), BoardEvent::Nothing);
    assert_eq!(check_board_inputs(&mut board, key(KeyCode::Right)), BoardEvent::Nothing);
    assert_eq!(board.cursor(), 1);
    assert_eq!(check_board_inputs(&mut board, key(KeyCode::Down)), BoardEvent::Scored);
    assert_eq!(board.pole(1), &vec![1]);
    assert_eq!(check_board_inputs(&mut board, key(KeyCode::Down)), BoardEvent::Nothing);
    assert_eq!(check_board_inputs(&mut board, key(KeyCode::Left)), BoardEvent::Nothing);
    assert_eq!(check_board_inputs(&mut board, key(KeyCode::Left)), BoardEvent::Nothing);
    assert_eq!(board.cursor(), 0);
}

#[test]
fn a_drop_that_is_not_scored_reports_nothing() {
    let mut board = Board::new(3, 3);
    assert_eq!(check_board_inputs(&mut board, key(KeyCode::Up)), BoardEvent::Grabbed);
    assert_eq!(check_board_inputs(&mut board, key(KeyCode::Down)), BoardEvent::Scored);
    assert_eq!(check_board_inputs(&mut board, key(KeyCode::Up)), BoardEvent::Grabbed);
    assert_eq!(check_board_inputs(&mut board, key(KeyCode::Down)), BoardEvent::Nothing);
    assert_eq!(board.held(), None);
    assert_eq!(board.move_count(), 1);
}

#[test]
fn the_reset_key_is_reported_and_leaves_the_board() {
    let mut board = Board::new(3, 3);
    check_board_inputs(&mut board, key(KeyCode::Up));
    assert_eq!(check_board_inputs(&mut board, letter('r')), BoardEvent::Reset);
    assert_eq!(board.held(), Some(1));
    assert_eq!(board.pole(0), &vec![3, 2]);
}

#[test]
fn keys_of_the_game_leave_the_board() {
    let mut board = Board::new(3, 3);
    for press in [key(KeyCode::Escape), with_alt(KeyCode::F4), with_alt(KeyCode::Enter), key(KeyCode::Enter), key(KeyCode::Shift)] {
        assert_eq!(check_board_inputs(&mut board, press), BoardEvent::Nothing);
    }
    assert_eq!(board.pole(0), &vec![3, 2, 1]);
    assert_eq!(board.cursor(), 0);
    assert_eq!(board.held(), None);
}

#[test]
fn modifier_keys_are_told_from_the_others() {
    for code in [
        KeyCode::Shift,
        KeyCode::Control,
        KeyCode::Alt,
        KeyCode::LeftWin,
        KeyCode::RightWin,
    ] {
        assert!(code.is_modifier(), "{:?} is a modifier", code);
    }
    for code in [
        KeyCode::Up,
        KeyCode::Down,
        KeyCode::Left,
        KeyCode::Right,
        KeyCode::Char,
        KeyCode::Enter,
        KeyCode::Escape,
        KeyCode::F4,
        KeyCode::Other,
    ] {
        assert!(!code.is_modifier(), "{:?} is no modifier", code);
    }
}
