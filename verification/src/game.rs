//! The flow of the game from screen to screen, one key press at a time.

use crate::board::Board;
use crate::frame::{all_on_screen, law_game_on_screen};
use crate::input::{
    action_of, board_after, can_count, check_board_inputs, check_game_input, classify, game_input,
    Action, BoardEvent, GameInput, Key, KeyCode,
};
use crate::menu::{Menu, MAX_DISKS, MAX_POLES, MIN_DISKS, MIN_POLES};
use crate::model::BoardView;
use crate::render::{can_draw, drawable, Glyph};
use crate::screens::{draw_menu, draw_play, draw_win, menu_glyphs, play_glyphs, win_glyphs};
use vstd::prelude::*;

verus! {

/// The game: the screen that is shown, with what it shows.
#[derive(Debug)]
pub enum Game {
    /// The menu is open.
    Menu(Menu),
    /// A puzzle is played.
    Play(Board),
    /// A puzzle is solved.
    Win(Board),
    /// The game is over.
    Over,
}

/// The state of the game.
pub enum GameView {
    Menu(Menu),
    Play(BoardView),
    Win(BoardView),
    Over,
}

/// What the caller has to do after a key press, besides showing the next screen.
#[derive(Clone, Copy, Debug, PartialEq, Eq, Structural)]
pub enum Effect {
    /// Nothing.
    Nothing,
    /// Switch between the window and the full screen.
    ToggleFullscreen,
}

impl View for Game {
    type V = GameView;

    open spec fn view(&self) -> GameView {
        match self {
            Game::Menu(menu) => GameView::Menu(*menu),
            Game::Play(board) => GameView::Play(board@),
            Game::Win(board) => GameView::Win(board@),
            Game::Over => GameView::Over,
        }
    }
}

/// The board has as many poles and disks as the menu lets one choose.
pub open spec fn chosen_in_menu(board: BoardView) -> bool {
    &&& MIN_POLES <= board.poles.len() <= MAX_POLES
    &&& MIN_DISKS <= board.disk_count <= MAX_DISKS
}

impl GameView {
    /// The game as it starts: the menu as it opens.
    pub open spec fn initial() -> GameView {
        GameView::Menu(Menu::initial())
    }

    /// The state is valid: the menu is, or the board is.
    pub open spec fn wf(self) -> bool {
        match self {
            GameView::Menu(menu) => menu.wf(),
            GameView::Play(board) => board.wf(),
            GameView::Win(board) => board.wf(),
            GameView::Over => true,
        }
    }

    /// The screen can be drawn: it shows no board, or one that can be drawn.
    pub open spec fn drawable(self) -> bool {
        match self {
            GameView::Play(board) => drawable(board),
            GameView::Win(board) => drawable(board),
            _ => true,
        }
    }

    /// The state is one that the game gets into from its start: a puzzle
    /// has as many poles and disks as the menu lets one choose, it is
    /// played while it is unsolved and shown as solved once it is.
    pub open spec fn regular(self) -> bool {
        match self {
            GameView::Menu(menu) => menu.wf(),
            GameView::Play(board) => board.wf() && chosen_in_menu(board) && !board.is_won(),
            GameView::Win(board) => board.wf() && chosen_in_menu(board) && board.is_won(),
            GameView::Over => true,
        }
    }

    /// The count of moves has room for what the key would add to it.
    pub open spec fn can_step(self, key: Key) -> bool {
        self matches GameView::Play(board) ==> can_count(board, action_of(key))
    }

    /// The game after a key press in the menu. Escape and alt with F4 end
    /// the game, enter starts a puzzle with the chosen poles and disks, the
    /// arrow keys change the menu.
    pub open spec fn after_menu(menu: Menu, key: Key) -> GameView {
        match game_input(action_of(key)) {
            GameInput::Escape => GameView::Over,
            GameInput::Quit => GameView::Over,
            GameInput::Fullscreen => GameView::Menu(menu),
            GameInput::Nothing => if key.code is Enter {
                GameView::Play(BoardView::initial(menu.poles as nat, menu.disks as nat))
            } else {
                GameView::Menu(menu.after(key.code))
            },
        }
    }

    /// The board after a key press while the puzzle is played.
    pub open spec fn played(board: BoardView, key: Key) -> BoardView {
        if action_of(key) is Reset {
            board.reset()
        } else {
            board_after(board, action_of(key))
        }
    }

    /// The game after a key press while a puzzle is played. Escape opens
    /// the menu anew and alt with F4 ends the game; any other key works
    /// the board, if it asks for that, and then the puzzle is solved or
    /// is played on.
    pub open spec fn after_play(board: BoardView, key: Key) -> GameView {
        match game_input(action_of(key)) {
            GameInput::Escape => GameView::Menu(Menu::initial()),
            GameInput::Quit => GameView::Over,
            _ => if GameView::played(board, key).is_won() {
                GameView::Win(GameView::played(board, key))
            } else {
                GameView::Play(GameView::played(board, key))
            },
        }
    }

    /// The game after a key press on the screen of a solved puzzle. Alt
    /// with F4 ends the game; alt with enter and the modifier keys leave
    /// the screen as it is; any other key opens the menu anew.
    pub open spec fn after_win(board: BoardView, key: Key) -> GameView {
        match game_input(action_of(key)) {
            GameInput::Quit => GameView::Over,
            GameInput::Fullscreen => GameView::Win(board),
            _ => if key.code.modifier() {
                GameView::Win(board)
            } else {
                GameView::Menu(Menu::initial())
            },
        }
    }

    /// The game after a key press.
    pub open spec fn after(self, key: Key) -> GameView {
        match self {
            GameView::Menu(menu) => GameView::after_menu(menu, key),
            GameView::Play(board) => GameView::after_play(board, key),
            GameView::Win(board) => GameView::after_win(board, key),
            GameView::Over => GameView::Over,
        }
    }

    /// What the caller has to do after a key press: alt with enter toggles
    /// the full screen on every screen.
    pub open spec fn effect(self, key: Key) -> Effect {
        if !(self is Over) && action_of(key) is ToggleFullscreen {
            Effect::ToggleFullscreen
        } else {
            Effect::Nothing
        }
    }

    /// The glyphs of the screen that is shown.
    pub open spec fn glyphs(self) -> Seq<Glyph> {
        match self {
            GameView::Menu(menu) => menu_glyphs(menu),
            GameView::Play(board) => play_glyphs(board),
            GameView::Win(board) => win_glyphs(board),
            GameView::Over => Seq::empty(),
        }
    }
}

/// A puzzle with as many poles and disks as the menu lets one choose can be drawn.
pub proof fn lemma_chosen_is_drawable(board: BoardView)
    requires
        chosen_in_menu(board),
    ensures
        drawable(board),
{
    assert(board.poles.len() * (board.disk_count + 2) <= 7 * 14) by (nonlinear_arith)
        requires
            board.poles.len() <= 7,
            board.disk_count <= 12,
    ;
}

impl Game {
    /// The state is valid, as its model says.
    pub open spec fn wf(&self) -> bool {
        self@.wf()
    }

    /// The game as it starts: the menu as it opens.
    pub fn new() -> (game: Game)
        ensures
            game.wf(),
            game@ == GameView::initial(),
            game@.regular(),
            game@.drawable(),
    {
        Game::Menu(Menu::new())
    }

    /// Whether the game is over.
    pub fn is_over(&self) -> (over: bool)
        ensures
            over == (self@ is Over),
    {
        match self {
            Game::Over => true,
            _ => false,
        }
    }

    /// Whether the count of moves has room for what the key would add to it.
    pub fn can_step(&self, key: Key) -> (ok: bool)
        requires
            self.wf(),
        ensures
            ok == self@.can_step(key),
    {
        match self {
            Game::Play(board) => {
                if board.move_count() < usize::MAX {
                    return true;
                }
                match classify(key) {
                    Action::Drop => !board.drop_scores(),
                    _ => true,
                }
            },
            _ => true,
        }
    }

    /// Whether the screen can be drawn.
    pub fn can_draw(&self) -> (ok: bool)
        ensures
            ok == self@.drawable(),
    {
        match self {
            Game::Play(board) => can_draw(board),
            Game::Win(board) => can_draw(board),
            _ => true,
        }
    }

    /// Draws the screen that is shown. In a regular state of the game every
    /// glyph lies on the screen.
    pub fn draw(&self) -> (screen: Vec<Glyph>)
        requires
            self.wf(),
            self@.drawable(),
        ensures
            screen@ == self@.glyphs(),
            self@.regular() ==> all_on_screen(screen@),
    {
        let mut screen: Vec<Glyph> = Vec::new();
        match self {
            Game::Menu(menu) => draw_menu(&mut screen, menu),
            Game::Play(board) => draw_play(&mut screen, board),
            Game::Win(board) => {
                proof {
                    board.lemma_counts_fit();
                }
                draw_win(&mut screen, board)
            },
            Game::Over => {},
        }
        assert(screen@ =~= self@.glyphs());
        proof {
            if self@.regular() {
                law_game_on_screen(self@);
            }
        }
        screen
    }
}

/// Takes a key press in the menu.
pub fn menu(state: Menu, key: Key) -> (next: (Game, Effect))
    requires
        state.wf(),
    ensures
        next.0.wf(),
        next.0@ == GameView::after_menu(state, key),
        next.1 == GameView::Menu(state).effect(key),
        next.0@.regular(),
        next.0@.drawable(),
{
    match check_game_input(key) {
        GameInput::Escape => (Game::Over, Effect::Nothing),
        GameInput::Quit => (Game::Over, Effect::Nothing),
        GameInput::Fullscreen => (Game::Menu(state), Effect::ToggleFullscreen),
        GameInput::Nothing => match key.code {
            KeyCode::Enter => {
                let board = Board::new(state.poles, state.disks);
                proof {
                    lemma_chosen_is_drawable(board@);
                    assert(board@.poles.last().len() == 0);
                }
                (Game::Play(board), Effect::Nothing)
            },
            code => {
                let mut state = state;
                state.press(code);
                (Game::Menu(state), Effect::Nothing)
            },
        },
    }
}

/// Takes a key press while a puzzle is played.
pub fn play(board: Board, key: Key) -> (next: (Game, Effect))
    requires
        board.wf(),
        can_count(board@, action_of(key)),
    ensures
        next.0.wf(),
        next.0@ == GameView::after_play(board@, key),
        next.1 == GameView::Play(board@).effect(key),
        chosen_in_menu(board@) ==> next.0@.regular(),
        drawable(board@) ==> next.0@.drawable(),
{
    let mut board = board;
    let ghost before = board@;
    proof {
        before.lemma_reset_wf();
    }
    let mut effect = Effect::Nothing;
    match check_board_inputs(&mut board, key) {
        BoardEvent::Reset => board.reset(),
        _ => match check_game_input(key) {
            GameInput::Escape => {
                return (Game::Menu(Menu::new()), Effect::Nothing);
            },
            GameInput::Quit => {
                return (Game::Over, Effect::Nothing);
            },
            GameInput::Fullscreen => {
                effect = Effect::ToggleFullscreen;
            },
            GameInput::Nothing => {},
        },
    }
    assert(board@ == GameView::played(before, key));
    assert(board@.poles.len() == before.poles.len());
    assert(board@.disk_count == before.disk_count);
    if board.is_won() {
        (Game::Win(board), effect)
    } else {
        (Game::Play(board), effect)
    }
}

/// Takes a key press on the screen of a solved puzzle.
pub fn win(board: Board, key: Key) -> (next: (Game, Effect))
    requires
        board.wf(),
    ensures
        next.0.wf(),
        next.0@ == GameView::after_win(board@, key),
        next.1 == GameView::Win(board@).effect(key),
        chosen_in_menu(board@) && board@.is_won() ==> next.0@.regular(),
        drawable(board@) ==> next.0@.drawable(),
{
    match check_game_input(key) {
        GameInput::Quit => (Game::Over, Effect::Nothing),
        GameInput::Fullscreen => (Game::Win(board), Effect::ToggleFullscreen),
        _ => if key.code.is_modifier() {
            (Game::Win(board), Effect::Nothing)
        } else {
            (Game::Menu(Menu::new()), Effect::Nothing)
        },
    }
}

/// Takes a key press: hands it to the screen that is shown, and gives the
/// game as it is after the key with what the caller has to do.
pub fn step(game: Game, key: Key) -> (next: (Game, Effect))
    requires
        game.wf(),
        game@.can_step(key),
    ensures
        next.0.wf(),
        next.0@ == game@.after(key),
        next.1 == game@.effect(key),
        game@.regular() ==> next.0@.regular(),
        game@.drawable() ==> next.0@.drawable(),
{
    match game {
        Game::Menu(state) => menu(state, key),
        Game::Play(board) => play(board, key),
        Game::Win(board) => win(board, key),
        Game::Over => (Game::Over, Effect::Nothing),
    }
}

/// The game after a sequence of key presses, the first of them taken first.
pub open spec fn run(game: GameView, keys: Seq<Key>) -> GameView
    decreases keys.len(),
{
    if keys.len() == 0 {
        game
    } else {
        run(game, keys.drop_last()).after(keys.last())
    }
}

/// A regular state is valid and can be drawn.
pub proof fn law_regular_is_valid(game: GameView)
    requires
        game.regular(),
    ensures
        game.wf(),
        game.drawable(),
{
    match game {
        GameView::Play(board) => lemma_chosen_is_drawable(board),
        GameView::Win(board) => lemma_chosen_is_drawable(board),
        _ => {},
    }
}

/// A key press keeps the game regular: whatever the key, the menu keeps its
/// values within their limits, a puzzle keeps its poles and disks, an
/// unsolved puzzle is played and a solved one is shown as solved.
pub proof fn law_step_keeps_regular(game: GameView, key: Key)
    requires
        game.regular(),
    ensures
        game.after(key).regular(),
{
    match game {
        GameView::Menu(menu) => {
            let board = BoardView::initial(menu.poles as nat, menu.disks as nat);
            BoardView::lemma_initial_wf(menu.poles as nat, menu.disks as nat);
            assert(board.poles.last().len() == 0);
        },
        GameView::Play(board) => {
            board.lemma_reset_wf();
            board.lemma_grab_wf();
            board.lemma_drop_wf();
            board.lemma_move_cursor_wf(1);
            board.lemma_move_cursor_wf(-1);
        },
        _ => {},
    }
}

/// Whatever keys are pressed from the start of the game on, the game is in
/// a regular state.
pub proof fn law_game_stays_regular(keys: Seq<Key>)
    ensures
        run(GameView::initial(), keys).regular(),
    decreases keys.len(),
{
    if keys.len() > 0 {
        law_game_stays_regular(keys.drop_last());
        law_step_keeps_regular(run(GameView::initial(), keys.drop_last()), keys.last());
    }
}

/// Once the game is over it stays over.
pub proof fn law_over_is_final(keys: Seq<Key>)
    ensures
        run(GameView::Over, keys) is Over,
    decreases keys.len(),
{
    if keys.len() > 0 {
        law_over_is_final(keys.drop_last());
    }
}

/// A modifier key pressed on the screen of a solved puzzle leaves the game
/// as it is, and any key that is no modifier leaves that screen.
pub proof fn law_win_waits_for_a_key(board: BoardView, key: Key)
    ensures
        key.code.modifier() ==> GameView::after_win(board, key) == GameView::Win(board),
        !key.code.modifier() && !(action_of(key) is ToggleFullscreen) ==> !(GameView::after_win(
            board,
            key,
        ) is Win),
        !key.code.modifier() && !(action_of(key) is ToggleFullscreen) && !(action_of(key) is Quit)
            ==> GameView::after_win(board, key) == GameView::Menu(Menu::initial()),
{
}

} // verus!
