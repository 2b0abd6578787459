//! The screens of the game drawn as glyphs: the menu, the puzzle while it is
//! played, and the puzzle when it is solved.

use crate::board::Board;
use crate::menu::Menu;
use crate::model::BoardView;
use crate::render::{
    board_glyphs, digit, digit_char, draw_board, drawable, glyph_at, label, label_fits,
    label_glyphs, Glyph, SCREEN_HEIGHT, SCREEN_WIDTH,
};
use vstd::prelude::*;
use vstd::utf8::encode_utf8;

verus! {

/// The column on which the texts of the screens are centred.
pub open spec fn center_x() -> int {
    SCREEN_WIDTH / 2
}

/// The row of the menu's options.
pub open spec fn center_y() -> int {
    SCREEN_HEIGHT / 2
}

/// The columns from one option of the menu to the next, less the free columns.
pub const OPTION_WIDTH: i32 = 10;

/// The free columns between the options of the menu.
pub const OPTION_PADDING: i32 = 2;

/// A text takes at least one byte and at most four bytes for each character.
pub proof fn lemma_byte_len_bounds(text: Seq<char>)
    ensures
        text.len() <= encode_utf8(text).len() <= 4 * text.len(),
    decreases text.len(),
{
    if text.len() > 0 {
        lemma_byte_len_bounds(text.drop_first());
    }
}

/// A text of at most a thousand characters can be written next to any
/// column of the screen.
pub proof fn lemma_short_text_fits(text: Seq<char>, anchor: int, center: bool)
    requires
        text.len() <= 1000,
        -1000 <= anchor <= 1000,
    ensures
        label_fits(text, anchor, center),
{
    lemma_byte_len_bounds(text);
}

/// A text centred on the screen in row `y`.
pub open spec fn headline_glyphs(text: Seq<char>, y: int) -> Seq<Glyph> {
    label_glyphs(text, y, center_x(), true)
}

/// Writes a text centred on the screen in row `y`.
fn headline(screen: &mut Vec<Glyph>, text: &str, y: i32)
    requires
        text@.len() <= 1000,
    ensures
        final(screen)@ == old(screen)@ + headline_glyphs(text@, y as int),
{
    proof {
        lemma_short_text_fits(text@, center_x(), true);
    }
    label(screen, text, y, SCREEN_WIDTH / 2, true);
}

/// The name of an option of the menu.
pub open spec fn option_name(index: int) -> Seq<char> {
    if index == 0 {
        "Poles"@
    } else {
        "Disks"@
    }
}

/// The value of an option of the menu.
pub open spec fn option_value(menu: Menu, index: int) -> nat {
    if index == 0 {
        menu.poles as nat
    } else {
        menu.disks as nat
    }
}

/// The column in which an option of the menu starts.
pub open spec fn option_x(index: int) -> int {
    2 + center_x() - OPTION_WIDTH - OPTION_PADDING + index * OPTION_WIDTH + OPTION_PADDING * index
}

/// The marks above and below the selected option.
pub open spec fn selection_glyphs(x: int, y: int) -> Seq<Glyph> {
    seq![
        glyph_at(x, y - 2, '/'),
        glyph_at(x + 1, y - 2, '\\'),
        glyph_at(x, y + 2, '\\'),
        glyph_at(x + 1, y + 2, '/'),
    ]
}

/// One option of the menu: its name, its value in two digits before the
/// name, and the marks around the value where the option is selected.
pub open spec fn option_glyphs(menu: Menu, index: int) -> Seq<Glyph> {
    label_glyphs(option_name(index), center_y(), option_x(index) + 3, false) + seq![
        glyph_at(option_x(index), center_y(), digit_char(option_value(menu, index) / 10)),
        glyph_at(option_x(index) + 1, center_y(), digit_char(option_value(menu, index) % 10)),
    ] + if index == menu.cursor {
        selection_glyphs(option_x(index), center_y())
    } else {
        Seq::empty()
    }
}

/// The menu.
pub open spec fn menu_glyphs(menu: Menu) -> Seq<Glyph> {
    headline_glyphs("Rusty Tower Of Hanoi"@, 1) + headline_glyphs(
        "Arrow keys: Change rules"@,
        center_y() / 2,
    ) + option_glyphs(menu, 0) + option_glyphs(menu, 1) + headline_glyphs(
        "Press Enter to play!"@,
        SCREEN_HEIGHT - 3,
    )
}

/// Draws one option of the menu.
fn draw_option(screen: &mut Vec<Glyph>, menu: &Menu, index: usize)
    requires
        menu.wf(),
        index <= 1,
    ensures
        final(screen)@ == old(screen)@ + option_glyphs(*menu, index as int),
{
    let spot_x: i32 = 2 + SCREEN_WIDTH / 2 - OPTION_WIDTH - OPTION_PADDING + index as i32
        * OPTION_WIDTH + OPTION_PADDING * index as i32;
    let spot_y: i32 = SCREEN_HEIGHT / 2;
    let value: usize = if index == 0 {
        menu.poles
    } else {
        menu.disks
    };
    proof {
        reveal_strlit("Poles");
        reveal_strlit("Disks");
        lemma_short_text_fits(option_name(index as int), spot_x + 3, false);
    }
    label(
        screen,
        if index == 0 {
            "Poles"
        } else {
            "Disks"
        },
        spot_y,
        spot_x + 3,
        false,
    );
    screen.push(Glyph { x: spot_x, y: spot_y, ch: digit(value / 10) });
    screen.push(Glyph { x: spot_x + 1, y: spot_y, ch: digit(value % 10) });
    if index == menu.cursor {
        screen.push(Glyph { x: spot_x, y: spot_y - 2, ch: '/' });
        screen.push(Glyph { x: spot_x + 1, y: spot_y - 2, ch: '\\' });
        screen.push(Glyph { x: spot_x, y: spot_y + 2, ch: '\\' });
        screen.push(Glyph { x: spot_x + 1, y: spot_y + 2, ch: '/' });
    }
    assert(screen@ =~= old(screen)@ + option_glyphs(*menu, index as int));
}

/// Draws the menu: the title, a hint, the two options and how to go on.
pub fn draw_menu(screen: &mut Vec<Glyph>, menu: &Menu)
    requires
        menu.wf(),
    ensures
        final(screen)@ == old(screen)@ + menu_glyphs(*menu),
{
    proof {
        reveal_strlit("Rusty Tower Of Hanoi");
        reveal_strlit("Arrow keys: Change rules");
        reveal_strlit("Press Enter to play!");
    }
    headline(screen, "Rusty Tower Of Hanoi", 1);
    headline(screen, "Arrow keys: Change rules", SCREEN_HEIGHT / 2 / 2);
    draw_option(screen, menu, 0);
    draw_option(screen, menu, 1);
    headline(screen, "Press Enter to play!", SCREEN_HEIGHT - 3);
    assert(screen@ =~= old(screen)@ + menu_glyphs(*menu));
}

/// The puzzle while it is played: what to do, how to do it, and the board.
pub open spec fn play_glyphs(board: BoardView) -> Seq<Glyph> {
    headline_glyphs("Stack all disks on the rightmost pole"@, 1) + headline_glyphs(
        "You can't stack a disk on top of a smaller disk"@,
        2,
    ) + headline_glyphs(
        "Left/Right: move | UP: pick disk | Down: drop disk"@,
        SCREEN_HEIGHT - 3,
    ) + headline_glyphs("R: reset | Esc: main menu"@, SCREEN_HEIGHT - 2) + board_glyphs(board)
}

/// Draws the puzzle while it is played.
pub fn draw_play(screen: &mut Vec<Glyph>, board: &Board)
    requires
        board.wf(),
        drawable(board@),
    ensures
        final(screen)@ == old(screen)@ + play_glyphs(board@),
{
    proof {
        reveal_strlit("Stack all disks on the rightmost pole");
        reveal_strlit("You can't stack a disk on top of a smaller disk");
        reveal_strlit("Left/Right: move | UP: pick disk | Down: drop disk");
        reveal_strlit("R: reset | Esc: main menu");
    }
    headline(screen, "Stack all disks on the rightmost pole", 1);
    headline(screen, "You can't stack a disk on top of a smaller disk", 2);
    headline(screen, "Left/Right: move | UP: pick disk | Down: drop disk", SCREEN_HEIGHT - 3);
    headline(screen, "R: reset | Esc: main menu", SCREEN_HEIGHT - 2);
    draw_board(screen, board);
    assert(screen@ =~= old(screen)@ + play_glyphs(board@));
}

/// What is said of a solved puzzle, by the number of poles and disks it had.
pub open spec fn feedback(poles: nat, disks: nat) -> Seq<char> {
    if poles == 3 {
        if disks == 1 {
            "Good job debugging, now play the game -_-'"@
        } else if disks == 2 {
            "Wow! That was easy huhh...?"@
        } else if disks == 3 {
            "Well done!"@
        } else if disks == 4 {
            "Good job!"@
        } else if disks == 5 {
            "Smart!"@
        } else if disks == 6 {
            "Very Smart!"@
        } else if disks == 7 {
            "Amazing!"@
        } else if disks == 8 {
            "You are crazy!!"@
        } else if 9 <= disks <= 10 {
            "Wow! That's impressive :o"@
        } else if disks == 11 {
            "You. Are. A. Legend"@
        } else if disks == 12 {
            "How in the.....???"@
        } else {
            "Hmmmmmm.... that's uhh.. unexpected"@
        }
    } else if 4 <= poles <= 5 {
        if 1 <= disks <= 2 {
            "Good job debugging, now play the game -_-'"@
        } else if 3 <= disks <= 5 {
            "Well done! I guess..."@
        } else if 6 <= disks <= 10 {
            "Is it actually hard?"@
        } else if 11 <= disks <= 13 {
            "This probably requires some thinking"@
        } else {
            "Hmmmmmm.... that's uhh.. unexpected"@
        }
    } else if poles >= 6 {
        "Good job debugging, now play the game -_-'"@
    } else {
        "Wait, that's ilegal!"@
    }
}

/// Picks what is said of a solved puzzle: the fewer poles and the more
/// disks it had, the higher the praise.
pub fn win_feedback(poles: usize, disks: usize) -> (text: &'static str)
    ensures
        text@ == feedback(poles as nat, disks as nat),
        text@.len() <= 50,
{
    proof {
        reveal_strlit("Good job debugging, now play the game -_-'");
        reveal_strlit("Wow! That was easy huhh...?");
        reveal_strlit("Well done!");
        reveal_strlit("Good job!");
        reveal_strlit("Smart!");
        reveal_strlit("Very Smart!");
        reveal_strlit("Amazing!");
        reveal_strlit("You are crazy!!");
        reveal_strlit("Wow! That's impressive :o");
        reveal_strlit("You. Are. A. Legend");
        reveal_strlit("How in the.....???");
        reveal_strlit("Hmmmmmm.... that's uhh.. unexpected");
        reveal_strlit("Well done! I guess...");
        reveal_strlit("Is it actually hard?");
        reveal_strlit("This probably requires some thinking");
        reveal_strlit("Wait, that's ilegal!");
    }
    if poles == 3 {
        if disks == 1 {
            "Good job debugging, now play the game -_-'"
        } else if disks == 2 {
            "Wow! That was easy huhh...?"
        } else if disks == 3 {
            "Well done!"
        } else if disks == 4 {
            "Good job!"
        } else if disks == 5 {
            "Smart!"
        } else if disks == 6 {
            "Very Smart!"
        } else if disks == 7 {
            "Amazing!"
        } else if disks == 8 {
            "You are crazy!!"
        } else if 9 <= disks && disks <= 10 {
            "Wow! That's impressive :o"
        } else if disks == 11 {
            "You. Are. A. Legend"
        } else if disks == 12 {
            "How in the.....???"
        } else {
            "Hmmmmmm.... that's uhh.. unexpected"
        }
    } else if 4 <= poles && poles <= 5 {
        if 1 <= disks && disks <= 2 {
            "Good job debugging, now play the game -_-'"
        } else if 3 <= disks && disks <= 5 {
            "Well done! I guess..."
        } else if 6 <= disks && disks <= 10 {
            "Is it actually hard?"
        } else if 11 <= disks && disks <= 13 {
            "This probably requires some thinking"
        } else {
            "Hmmmmmm.... that's uhh.. unexpected"
        }
    } else if poles >= 6 {
        "Good job debugging, now play the game -_-'"
    } else {
        "Wait, that's ilegal!"
    }
}

/// The decimal digits of a number, the highest first, without leading zeros.
pub open spec fn decimal(n: nat) -> Seq<char>
    decreases n,
{
    if n < 10 {
        seq![digit_char(n)]
    } else {
        decimal(n / 10).push(digit_char(n % 10))
    }
}

/// Ten to the power of `k`.
pub open spec fn pow10(k: nat) -> nat
    decreases k,
{
    if k == 0 {
        1
    } else {
        10 * pow10((k - 1) as nat)
    }
}

/// A number below ten to the power of `k` has at most `k` digits.
pub proof fn lemma_decimal_len(n: nat, k: nat)
    requires
        k >= 1,
        n < pow10(k),
    ensures
        1 <= decimal(n).len() <= k,
    decreases k,
{
    reveal_with_fuel(pow10, 2);
    if n >= 10 {
        lemma_decimal_len(n / 10, (k - 1) as nat);
    }
}

/// A number that the machine can hold has at most twenty digits.
pub proof fn lemma_decimal_len_usize(n: usize)
    ensures
        1 <= decimal(n as nat).len() <= 20,
{
    assert(pow10(20) == 100_000_000_000_000_000_000nat) by {
        reveal_with_fuel(pow10, 21);
    }
    lemma_decimal_len(n as nat, 20);
}

/// The text of a decimal digit.
fn digit_text(d: usize) -> (text: &'static str)
    requires
        d < 10,
    ensures
        text@ == seq![digit_char(d as nat)],
{
    proof {
        reveal_strlit("0");
        reveal_strlit("1");
        reveal_strlit("2");
        reveal_strlit("3");
        reveal_strlit("4");
        reveal_strlit("5");
        reveal_strlit("6");
        reveal_strlit("7");
        reveal_strlit("8");
        reveal_strlit("9");
    }
    let text = if d == 0 {
        "0"
    } else if d == 1 {
        "1"
    } else if d == 2 {
        "2"
    } else if d == 3 {
        "3"
    } else if d == 4 {
        "4"
    } else if d == 5 {
        "5"
    } else if d == 6 {
        "6"
    } else if d == 7 {
        "7"
    } else if d == 8 {
        "8"
    } else {
        "9"
    };
    assert(text@ =~= seq![digit_char(d as nat)]);
    text
}

/// Writes a number in decimal digits at the end of a text.
pub fn push_decimal(text: &mut String, n: usize)
    ensures
        final(text)@ == old(text)@ + decimal(n as nat),
    decreases n,
{
    if n >= 10 {
        push_decimal(text, n / 10);
    }
    text.append(digit_text(n % 10));
    assert(text@ =~= old(text)@ + decimal(n as nat));
}

/// In how many moves the puzzle was solved, in words.
pub open spec fn moves_text(moves: nat) -> Seq<char> {
    "solved in "@ + decimal(moves) + " move"@ + seq![
        if moves > 1 {
            's'
        } else {
            ' '
        },
    ]
}

/// Says in how many moves the puzzle was solved.
pub fn win_message(moves: usize) -> (text: String)
    ensures
        text@ == moves_text(moves as nat),
        text@.len() <= 36,
{
    proof {
        reveal_strlit("solved in ");
        reveal_strlit(" move");
        reveal_strlit("s");
        reveal_strlit(" ");
        lemma_decimal_len_usize(moves);
    }
    let mut text = String::from_str("solved in ");
    push_decimal(&mut text, moves);
    text.append(" move");
    text.append(
        if moves > 1 {
            "s"
        } else {
            " "
        },
    );
    assert(text@ =~= moves_text(moves as nat));
    text
}

/// The solved puzzle: the praise, the count of moves, and the board.
pub open spec fn win_glyphs(board: BoardView) -> Seq<Glyph> {
    headline_glyphs("You solved the puzzle! :D"@, 3) + headline_glyphs(
        feedback(board.poles.len(), board.disk_count),
        5,
    ) + headline_glyphs(moves_text(board.move_count), 7) + board_glyphs(board)
}

/// Draws the solved puzzle.
pub fn draw_win(screen: &mut Vec<Glyph>, board: &Board)
    requires
        board.wf(),
        drawable(board@),
    ensures
        final(screen)@ == old(screen)@ + win_glyphs(board@),
{
    proof {
        reveal_strlit("You solved the puzzle! :D");
    }
    headline(screen, "You solved the puzzle! :D", 3);
    headline(screen, win_feedback(board.pole_count(), board.disk_count()), 5);
    let message = win_message(board.move_count());
    headline(screen, message.as_str(), 7);
    draw_board(screen, board);
    assert(screen@ =~= old(screen)@ + win_glyphs(board@));
}

} // verus!
