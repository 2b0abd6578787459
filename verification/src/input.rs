//! Key presses and what they ask for.

use crate::board::Board;
use crate::model::BoardView;
use vstd::prelude::*;

verus! {

/// Which key was pressed, as far as the game tells keys apart.
#[derive(Clone, Copy, Debug, PartialEq, Eq, Structural)]
pub enum KeyCode {
    Up,
    Down,
    Left,
    Right,
    /// A key that stands for a character; `Key::printable` holds it.
    Char,
    Enter,
    Escape,
    F4,
    Shift,
    Control,
    Alt,
    LeftWin,
    RightWin,
    /// Any other key.
    Other,
}

impl KeyCode {
    /// The key is a modifier: one that is held down to change what other
    /// keys mean, and asks for nothing when it is pressed alone.
    pub open spec fn modifier(self) -> bool {
        self is Shift || self is Control || self is Alt || self is LeftWin || self is RightWin
    }

    /// Whether the key is a modifier.
    pub fn is_modifier(self) -> (modifier: bool)
        ensures
            modifier == self.modifier(),
    {
        match self {
            KeyCode::Shift => true,
            KeyCode::Control => true,
            KeyCode::Alt => true,
            KeyCode::LeftWin => true,
            KeyCode::RightWin => true,
            _ => false,
        }
    }
}

/// One key press with what was held down of the modifiers that the game reads.
#[derive(Clone, Copy, Debug, PartialEq, Eq, Structural)]
pub struct Key {
    pub code: KeyCode,
    /// The character of a `KeyCode::Char` key.
    pub printable: char,
    /// Either alt key is down.
    pub alt: bool,
}

/// What a key press asks for.
#[derive(Clone, Copy, Debug, PartialEq, Eq, Structural)]
pub enum Action {
    MoveLeft,
    MoveRight,
    Grab,
    Drop,
    Reset,
    ToggleFullscreen,
    OpenMenu,
    Quit,
    Confirm,
    /// The key asks for nothing.
    Nothing,
}

impl Action {
    /// The action concerns the board, and so counts only while a puzzle is played.
    pub open spec fn is_board_action(self) -> bool {
        self is MoveLeft || self is MoveRight || self is Grab || self is Drop || self is Reset
    }
}

/// The action that a key press asks for: the arrow keys work the board, `r`
/// starts over, alt with enter toggles fullscreen, escape opens the menu, alt
/// with F4 quits, enter alone confirms.
pub open spec fn action_of(key: Key) -> Action {
    match key.code {
        KeyCode::Up => Action::Grab,
        KeyCode::Down => Action::Drop,
        KeyCode::Left => Action::MoveLeft,
        KeyCode::Right => Action::MoveRight,
        KeyCode::Char => if key.printable == 'r' {
            Action::Reset
        } else {
            Action::Nothing
        },
        KeyCode::Enter => if key.alt {
            Action::ToggleFullscreen
        } else {
            Action::Confirm
        },
        KeyCode::Escape => Action::OpenMenu,
        KeyCode::F4 => if key.alt {
            Action::Quit
        } else {
            Action::Nothing
        },
        _ => Action::Nothing,
    }
}

/// Tells what a key press asks for.
pub fn classify(key: Key) -> (action: Action)
    ensures
        action == action_of(key),
{
    match key.code {
        KeyCode::Up => Action::Grab,
        KeyCode::Down => Action::Drop,
        KeyCode::Left => Action::MoveLeft,
        KeyCode::Right => Action::MoveRight,
        KeyCode::Char => if key.printable == 'r' {
            Action::Reset
        } else {
            Action::Nothing
        },
        KeyCode::Enter => if key.alt {
            Action::ToggleFullscreen
        } else {
            Action::Confirm
        },
        KeyCode::Escape => Action::OpenMenu,
        KeyCode::F4 => if key.alt {
            Action::Quit
        } else {
            Action::Nothing
        },
        _ => Action::Nothing,
    }
}

/// What a key press did to the board.
#[derive(Clone, Copy, Debug, PartialEq, Eq, Structural)]
pub enum BoardEvent {
    /// Nothing that the caller has to know of.
    Nothing,
    /// A disk was lifted.
    Grabbed,
    /// A disk was placed and the move was scored.
    Scored,
    /// The key asks to start over; the board is left as it is.
    Reset,
}

/// The board after a key press that asks for `action`. Starting over is left
/// to the caller.
pub open spec fn board_after(board: BoardView, action: Action) -> BoardView {
    match action {
        Action::Grab => board.grab(),
        Action::Drop => board.drop(),
        Action::MoveLeft => board.move_cursor(-1),
        Action::MoveRight => board.move_cursor(1),
        _ => board,
    }
}

/// What a key press that asks for `action` does to the board.
pub open spec fn board_event(board: BoardView, action: Action) -> BoardEvent {
    match action {
        Action::Grab => if board.can_grab() {
            BoardEvent::Grabbed
        } else {
            BoardEvent::Nothing
        },
        Action::Drop => if board.drop_scores() {
            BoardEvent::Scored
        } else {
            BoardEvent::Nothing
        },
        Action::Reset => BoardEvent::Reset,
        _ => BoardEvent::Nothing,
    }
}

/// The count of moves has room for what a key press that asks for `action`
/// would add to it.
pub open spec fn can_count(board: BoardView, action: Action) -> bool {
    action is Drop && board.drop_scores() ==> board.move_count < usize::MAX
}

/// Works the board as the key asks: up lifts a disk, down places the held
/// one, left and right move the cursor by one pole. Says what came of it.
pub fn check_board_inputs(board: &mut Board, key: Key) -> (event: BoardEvent)
    requires
        old(board).wf(),
        can_count(old(board)@, action_of(key)),
    ensures
        final(board).wf(),
        final(board)@ == board_after(old(board)@, action_of(key)),
        event == board_event(old(board)@, action_of(key)),
{
    match classify(key) {
        Action::Grab => if board.grab() {
            BoardEvent::Grabbed
        } else {
            BoardEvent::Nothing
        },
        Action::Drop => if board.drop() {
            BoardEvent::Scored
        } else {
            BoardEvent::Nothing
        },
        Action::MoveLeft => {
            board.move_cursor(-1);
            BoardEvent::Nothing
        },
        Action::MoveRight => {
            board.move_cursor(1);
            BoardEvent::Nothing
        },
        Action::Reset => BoardEvent::Reset,
        _ => BoardEvent::Nothing,
    }
}

/// What a key press asks of the game as a whole.
#[derive(Clone, Copy, Debug, PartialEq, Eq, Structural)]
pub enum GameInput {
    /// Nothing.
    Nothing,
    /// Switch between the window and the full screen.
    Fullscreen,
    /// Leave the screen.
    Escape,
    /// End the program.
    Quit,
}

/// What a key press that asks for `action` asks of the game as a whole.
pub open spec fn game_input(action: Action) -> GameInput {
    match action {
        Action::ToggleFullscreen => GameInput::Fullscreen,
        Action::OpenMenu => GameInput::Escape,
        Action::Quit => GameInput::Quit,
        _ => GameInput::Nothing,
    }
}

/// Tells what a key press asks of the game as a whole.
pub fn check_game_input(key: Key) -> (input: GameInput)
    ensures
        input == game_input(action_of(key)),
{
    match classify(key) {
        Action::ToggleFullscreen => GameInput::Fullscreen,
        Action::OpenMenu => GameInput::Escape,
        Action::Quit => GameInput::Quit,
        _ => GameInput::Nothing,
    }
}

/// A modifier key asks for nothing, whatever else is held down.
pub proof fn law_modifiers_ask_nothing(key: Key)
    requires
        key.code.modifier(),
    ensures
        action_of(key) is Nothing,
{
}

/// No key press asks both for something on the board and for something of
/// the game as a whole.
pub proof fn law_board_and_game_inputs_apart(key: Key)
    ensures
        action_of(key).is_board_action() ==> game_input(action_of(key)) is Nothing,
        !action_of(key).is_board_action() ==> forall|board: BoardView|
            board_after(board, action_of(key)) == board && #[trigger] board_event(
                board,
                action_of(key),
            ) is Nothing,
{
}

} // verus!
