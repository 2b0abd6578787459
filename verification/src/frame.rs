//! What is drawn stays within the screen.

use crate::game::{chosen_in_menu, GameView};
use crate::menu::Menu;
use crate::model::BoardView;
use crate::render::{
    base_y, board_glyphs, column_glyphs, columns_glyphs, cursor_glyphs, digit_char, disk_glyphs,
    glyph_at, label_glyphs, level_glyphs, marker_y, pole_glyphs, pole_step, pole_x, reach, Glyph,
    SCREEN_HEIGHT, SCREEN_WIDTH,
};
use crate::screens::{
    center_x, center_y, decimal, feedback, headline_glyphs, lemma_decimal_len_usize, menu_glyphs,
    moves_text, option_glyphs, option_name, option_value, option_x, play_glyphs,
    selection_glyphs, win_glyphs,
};
use vstd::prelude::*;
use vstd::utf8::{is_ascii_chars, is_ascii_chars_encode_utf8};

verus! {

/// The glyph lies on the screen.
pub open spec fn on_screen(glyph: Glyph) -> bool {
    0 <= glyph.x < SCREEN_WIDTH && 0 <= glyph.y < SCREEN_HEIGHT
}

/// Every glyph lies on the screen.
pub open spec fn all_on_screen(glyphs: Seq<Glyph>) -> bool {
    forall|i: int| 0 <= i < glyphs.len() ==> on_screen(#[trigger] glyphs[i])
}

/// Glyphs that lie on the screen do so one after the other.
proof fn lemma_join(first: Seq<Glyph>, second: Seq<Glyph>)
    requires
        all_on_screen(first),
        all_on_screen(second),
    ensures
        all_on_screen(first + second),
{
}

/// A text of plain characters that starts on the screen and ends on it
/// lies on the screen.
pub proof fn lemma_label_on_screen(text: Seq<char>, y: int, anchor: int, center: bool)
    requires
        is_ascii_chars(text),
        0 <= y < SCREEN_HEIGHT,
        0 <= anchor - if center {
            text.len() as int / 2
        } else {
            0
        },
        anchor + text.len() - if center {
            text.len() as int / 2
        } else {
            0
        } <= SCREEN_WIDTH,
    ensures
        all_on_screen(label_glyphs(text, y, anchor, center)),
{
    is_ascii_chars_encode_utf8(text);
}

/// A text of plain characters that is no wider than the screen lies on
/// the screen when it is centred there.
pub proof fn lemma_headline_on_screen(text: Seq<char>, y: int)
    requires
        is_ascii_chars(text),
        text.len() <= SCREEN_WIDTH,
        0 <= y < SCREEN_HEIGHT,
    ensures
        all_on_screen(headline_glyphs(text, y)),
{
    lemma_label_on_screen(text, y, center_x(), true);
}

/// A disk whose tips are on the screen lies on the screen.
pub proof fn lemma_disk_on_screen(value: nat, x: int, y: int)
    requires
        0 <= x - reach(value),
        x + reach(value) < SCREEN_WIDTH,
        0 <= y < SCREEN_HEIGHT,
    ensures
        all_on_screen(disk_glyphs(value, x, y)),
{
}

/// The levels of a pole lie on the screen where the pole stands clear of
/// its edges by the reach of its largest disk.
proof fn lemma_pole_on_screen(pole: Seq<nat>, levels: nat, largest: nat, x: int, y: int)
    requires
        forall|level: int| 0 <= level < pole.len() ==> #[trigger] pole[level] <= largest,
        0 <= x - reach(largest),
        x + reach(largest) < SCREEN_WIDTH,
        levels <= y + 1,
        y < SCREEN_HEIGHT,
    ensures
        all_on_screen(pole_glyphs(pole, levels, x, y)),
    decreases levels,
{
    if levels > 0 {
        let level = levels - 1;
        lemma_pole_on_screen(pole, level as nat, largest, x, y);
        if level < pole.len() {
            assert(pole[level] <= largest);
            lemma_disk_on_screen(pole[level], x, y - level);
        }
        lemma_join(pole_glyphs(pole, level as nat, x, y), level_glyphs(pole, level, x, y));
    }
}

/// The poles of a puzzle that was chosen in the menu stand clear of the
/// edges of the screen by the reach of the largest disk.
proof fn lemma_pole_x_on_screen(board: BoardView, index: int)
    requires
        chosen_in_menu(board),
        0 <= index < board.poles.len(),
    ensures
        12 <= pole_x(board, index) <= 96,
{
    let offset = index - (board.poles.len() / 2) as int;
    let step = pole_step(board.disk_count);
    assert(-42 <= offset * step <= 42) by (nonlinear_arith)
        requires
            -3 <= offset <= 3,
            0 <= step <= 14,
    ;
}

/// One pole of a puzzle that was chosen in the menu lies on the screen,
/// with the cursor and the held disk above it.
proof fn lemma_column_on_screen(board: BoardView, index: int)
    requires
        board.wf(),
        chosen_in_menu(board),
        0 <= index < board.poles.len(),
    ensures
        all_on_screen(column_glyphs(board, index)),
{
    let x = pole_x(board, index);
    lemma_pole_x_on_screen(board, index);
    assert forall|level: int| 0 <= level < board.poles[index].len() implies (
    #[trigger] board.poles[index][level]) <= board.disk_count by {
        board.lemma_disk_in_range(index, level);
    }
    lemma_pole_on_screen(board.poles[index], board.disk_count + 1, board.disk_count, x, base_y(board));
    if index == board.cursor {
        let marker = seq![glyph_at(x, marker_y(board), '@')];
        assert(all_on_screen(marker));
        if board.held is Some {
            board.lemma_held_in_range();
            lemma_disk_on_screen(board.held->0, x, marker_y(board) - 1);
        }
        lemma_join(
            marker,
            match board.held {
                Some(disk) => disk_glyphs(disk, x, marker_y(board) - 1),
                None => Seq::empty(),
            },
        );
        lemma_join(
            pole_glyphs(board.poles[index], board.disk_count + 1, x, base_y(board)),
            cursor_glyphs(board, x),
        );
    } else {
        lemma_join(
            pole_glyphs(board.poles[index], board.disk_count + 1, x, base_y(board)),
            Seq::empty(),
        );
    }
}

/// The first poles of a puzzle that was chosen in the menu lie on the screen.
proof fn lemma_columns_on_screen(board: BoardView, count: nat)
    requires
        board.wf(),
        chosen_in_menu(board),
        count <= board.poles.len(),
    ensures
        all_on_screen(columns_glyphs(board, count)),
    decreases count,
{
    if count > 0 {
        lemma_columns_on_screen(board, (count - 1) as nat);
        lemma_column_on_screen(board, count - 1);
        lemma_join(columns_glyphs(board, (count - 1) as nat), column_glyphs(board, count - 1));
    }
}

/// A valid board with as many poles and disks as the menu lets one choose
/// lies on the screen, whatever its state.
pub proof fn law_board_on_screen(board: BoardView)
    requires
        board.wf(),
        chosen_in_menu(board),
    ensures
        all_on_screen(board_glyphs(board)),
{
    lemma_columns_on_screen(board, board.poles.len());
}

/// An option of the menu lies on the screen.
proof fn lemma_option_on_screen(menu: Menu, index: int)
    requires
        0 <= index <= 1,
    ensures
        all_on_screen(option_glyphs(menu, index)),
{
    reveal_strlit("Poles");
    reveal_strlit("Disks");
    assert(is_ascii_chars(option_name(index)));
    lemma_label_on_screen(option_name(index), center_y(), option_x(index) + 3, false);
    let name = label_glyphs(option_name(index), center_y(), option_x(index) + 3, false);
    let value = seq![
        glyph_at(
            option_x(index),
            center_y(),
            digit_char(option_value(menu, index) / 10),
        ),
        glyph_at(
            option_x(index) + 1,
            center_y(),
            digit_char(option_value(menu, index) % 10),
        ),
    ];
    assert(all_on_screen(value));
    assert(all_on_screen(selection_glyphs(option_x(index), center_y())));
    lemma_join(name, value);
    lemma_join(
        name + value,
        if index == menu.cursor {
            selection_glyphs(option_x(index), center_y())
        } else {
            Seq::empty()
        },
    );
}

/// The menu lies on the screen.
pub proof fn law_menu_on_screen(menu: Menu)
    ensures
        all_on_screen(menu_glyphs(menu)),
{
    reveal_strlit("Rusty Tower Of Hanoi");
    reveal_strlit("Arrow keys: Change rules");
    reveal_strlit("Press Enter to play!");
    let title = headline_glyphs("Rusty Tower Of Hanoi"@, 1);
    let hint = headline_glyphs("Arrow keys: Change rules"@, center_y() / 2);
    let go_on = headline_glyphs("Press Enter to play!"@, SCREEN_HEIGHT - 3);
    assert(is_ascii_chars("Rusty Tower Of Hanoi"@));
    assert(is_ascii_chars("Arrow keys: Change rules"@));
    assert(is_ascii_chars("Press Enter to play!"@));
    lemma_headline_on_screen("Rusty Tower Of Hanoi"@, 1);
    lemma_headline_on_screen("Arrow keys: Change rules"@, center_y() / 2);
    lemma_headline_on_screen("Press Enter to play!"@, SCREEN_HEIGHT - 3);
    lemma_option_on_screen(menu, 0);
    lemma_option_on_screen(menu, 1);
    lemma_join(title, hint);
    lemma_join(title + hint, option_glyphs(menu, 0));
    lemma_join(title + hint + option_glyphs(menu, 0), option_glyphs(menu, 1));
    lemma_join(title + hint + option_glyphs(menu, 0) + option_glyphs(menu, 1), go_on);
}

/// The screen of a puzzle that was chosen in the menu lies on the screen
/// while the puzzle is played.
pub proof fn law_play_on_screen(board: BoardView)
    requires
        board.wf(),
        chosen_in_menu(board),
    ensures
        all_on_screen(play_glyphs(board)),
{
    reveal_strlit("Stack all disks on the rightmost pole");
    reveal_strlit("You can't stack a disk on top of a smaller disk");
    reveal_strlit("Left/Right: move | UP: pick disk | Down: drop disk");
    reveal_strlit("R: reset | Esc: main menu");
    let goal = headline_glyphs("Stack all disks on the rightmost pole"@, 1);
    let rule = headline_glyphs("You can't stack a disk on top of a smaller disk"@, 2);
    let keys = headline_glyphs(
        "Left/Right: move | UP: pick disk | Down: drop disk"@,
        SCREEN_HEIGHT - 3,
    );
    let more = headline_glyphs("R: reset | Esc: main menu"@, SCREEN_HEIGHT - 2);
    assert(is_ascii_chars("Stack all disks on the rightmost pole"@));
    assert(is_ascii_chars("You can't stack a disk on top of a smaller disk"@));
    assert(is_ascii_chars("Left/Right: move | UP: pick disk | Down: drop disk"@));
    assert(is_ascii_chars("R: reset | Esc: main menu"@));
    lemma_headline_on_screen("Stack all disks on the rightmost pole"@, 1);
    lemma_headline_on_screen("You can't stack a disk on top of a smaller disk"@, 2);
    lemma_headline_on_screen(
        "Left/Right: move | UP: pick disk | Down: drop disk"@,
        SCREEN_HEIGHT - 3,
    );
    lemma_headline_on_screen("R: reset | Esc: main menu"@, SCREEN_HEIGHT - 2);
    law_board_on_screen(board);
    lemma_join(goal, rule);
    lemma_join(goal + rule, keys);
    lemma_join(goal + rule + keys, more);
    lemma_join(goal + rule + keys + more, board_glyphs(board));
}

/// What is said of a solved puzzle is plain text of at most fifty characters.
proof fn lemma_feedback_plain(poles: nat, disks: nat)
    ensures
        is_ascii_chars(feedback(poles, disks)),
        feedback(poles, disks).len() <= 50,
{
    reveal_strlit("Good job debugging, now play the game -_-'");
    reveal_strlit("Wow! That was easy huhh...?");
    reveal_strlit("Well done!");
    reveal_strlit("Good job!");
    reveal_strlit("Smart!");
    reveal_strlit("Very Smart!");
    reveal_strlit("Amazing!");
    reveal_strlit("You are crazy!!");
    reveal_strlit("Wow! That's impressive :o");
    reveal_strlit("You. Are. A. Legend");
    reveal_strlit("How in the.....???");
    reveal_strlit("Hmmmmmm.... that's uhh.. unexpected");
    reveal_strlit("Well done! I guess...");
    reveal_strlit("Is it actually hard?");
    reveal_strlit("This probably requires some thinking");
    reveal_strlit("Wait, that's ilegal!");
    assert(is_ascii_chars("Good job debugging, now play the game -_-'"@));
    assert(is_ascii_chars("Wow! That was easy huhh...?"@));
    assert(is_ascii_chars("Well done!"@));
    assert(is_ascii_chars("Good job!"@));
    assert(is_ascii_chars("Smart!"@));
    assert(is_ascii_chars("Very Smart!"@));
    assert(is_ascii_chars("Amazing!"@));
    assert(is_ascii_chars("You are crazy!!"@));
    assert(is_ascii_chars("Wow! That's impressive :o"@));
    assert(is_ascii_chars("You. Are. A. Legend"@));
    assert(is_ascii_chars("How in the.....???"@));
    assert(is_ascii_chars("Hmmmmmm.... that's uhh.. unexpected"@));
    assert(is_ascii_chars("Well done! I guess..."@));
    assert(is_ascii_chars("Is it actually hard?"@));
    assert(is_ascii_chars("This probably requires some thinking"@));
    assert(is_ascii_chars("Wait, that's ilegal!"@));
}

/// The digits of a number are plain characters.
proof fn lemma_decimal_plain(n: nat)
    ensures
        is_ascii_chars(decimal(n)),
    decreases n,
{
    if n >= 10 {
        lemma_decimal_plain(n / 10);
    }
}

/// The count of moves in words is plain text of at most thirty-six
/// characters for any count that the machine can hold.
proof fn lemma_moves_text_plain(moves: nat)
    requires
        moves <= usize::MAX,
    ensures
        is_ascii_chars(moves_text(moves)),
        moves_text(moves).len() <= 36,
{
    reveal_strlit("solved in ");
    reveal_strlit(" move");
    lemma_decimal_plain(moves);
    lemma_decimal_len_usize(moves as usize);
    assert(is_ascii_chars("solved in "@));
    assert(is_ascii_chars(" move"@));
}

/// The screen of a solved puzzle that was chosen in the menu lies on the screen.
pub proof fn law_win_on_screen(board: BoardView)
    requires
        board.wf(),
        chosen_in_menu(board),
        board.move_count <= usize::MAX,
    ensures
        all_on_screen(win_glyphs(board)),
{
    reveal_strlit("You solved the puzzle! :D");
    let solved = headline_glyphs("You solved the puzzle! :D"@, 3);
    let praise = headline_glyphs(feedback(board.poles.len(), board.disk_count), 5);
    let moves = headline_glyphs(moves_text(board.move_count), 7);
    assert(is_ascii_chars("You solved the puzzle! :D"@));
    lemma_headline_on_screen("You solved the puzzle! :D"@, 3);
    lemma_feedback_plain(board.poles.len(), board.disk_count);
    lemma_headline_on_screen(feedback(board.poles.len(), board.disk_count), 5);
    lemma_moves_text_plain(board.move_count);
    lemma_headline_on_screen(moves_text(board.move_count), 7);
    law_board_on_screen(board);
    lemma_join(solved, praise);
    lemma_join(solved + praise, moves);
    lemma_join(solved + praise + moves, board_glyphs(board));
}

/// Every screen of a game in a regular state lies on the screen. The count
/// of moves is one that the machine can hold.
pub proof fn law_game_on_screen(game: GameView)
    requires
        game.regular(),
        game matches GameView::Win(board) ==> board.move_count <= usize::MAX,
    ensures
        all_on_screen(game.glyphs()),
{
    match game {
        GameView::Menu(menu) => law_menu_on_screen(menu),
        GameView::Play(board) => law_play_on_screen(board),
        GameView::Win(board) => law_win_on_screen(board),
        GameView::Over => {},
    }
}

} // verus!
