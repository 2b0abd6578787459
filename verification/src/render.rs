//! The board drawn as glyphs on a grid of characters.

use crate::board::{sizes, Board};
use crate::model::BoardView;
use vstd::prelude::*;
use vstd::utf8::encode_utf8;

verus! {

/// The width of the screen in columns.
pub const SCREEN_WIDTH: i32 = 108;

/// The height of the screen in rows.
pub const SCREEN_HEIGHT: i32 = 32;

/// The free columns between the widest disks of two neighbouring poles.
pub const PADDING: i32 = 2;

/// The largest disk that can be drawn: its size is written with two digits.
pub const MAX_DISK: usize = 99;

/// One character at one place of the screen. Columns count from the left,
/// rows from the top.
#[derive(Clone, Copy, Debug, PartialEq, Eq, Structural)]
pub struct Glyph {
    pub x: i32,
    pub y: i32,
    pub ch: char,
}

/// The glyph `ch` in column `x` of row `y`.
pub open spec fn glyph_at(x: int, y: int, ch: char) -> Glyph {
    Glyph { x: x as i32, y: y as i32, ch }
}

/// The character of the decimal digit `d`.
pub open spec fn digit_char(d: nat) -> char {
    (48 + d) as char
}

/// The character of the decimal digit `d`.
pub fn digit(d: usize) -> (ch: char)
    requires
        d < 10,
    ensures
        ch == digit_char(d as nat),
{
    let low: u8 = d as u8;
    (48u8 + low) as char
}

/// The columns that a disk takes to each side of its pole, tip included.
pub open spec fn reach(value: nat) -> int {
    value as int / 2 + 1
}

/// The character of a disk of size `value` at `dx` columns from its pole.
/// The units digit stands on the pole with the tens digit, if there is one,
/// to its left; the tips are square for an even size and curly for an odd
/// one; the rest is filled.
pub open spec fn disk_char(value: nat, dx: int) -> char {
    if dx == -1 && value >= 10 {
        digit_char(value / 10)
    } else if dx == 0 {
        digit_char(value % 10)
    } else if dx == -reach(value) {
        if value % 2 == 1 {
            '{'
        } else {
            '['
        }
    } else if dx == reach(value) {
        if value % 2 == 1 {
            '}'
        } else {
            ']'
        }
    } else {
        '='
    }
}

/// A disk of size `value` on a pole in column `x`, drawn in row `y` from its
/// left tip to its right tip.
pub open spec fn disk_glyphs(value: nat, x: int, y: int) -> Seq<Glyph> {
    Seq::new(
        (2 * reach(value) + 1) as nat,
        |k: int| glyph_at(x - reach(value) + k, y, disk_char(value, k - reach(value))),
    )
}

/// Draws a disk of size `value` on a pole in column `spot_x`, in row `spot_y`.
pub fn draw_disk(screen: &mut Vec<Glyph>, value: usize, spot_x: i32, spot_y: i32)
    requires
        value <= MAX_DISK,
        i32::MIN <= spot_x - reach(value as nat),
        spot_x + reach(value as nat) <= i32::MAX,
    ensures
        final(screen)@ == old(screen)@ + disk_glyphs(value as nat, spot_x as int, spot_y as int),
{
    let half_x: i32 = (value / 2) as i32;
    let odd: bool = value % 2 == 1;
    let first: i32 = -half_x - 1;
    let end: i32 = half_x + 2;
    let mut x: i32 = first;
    while x < end
        invariant
            value <= MAX_DISK,
            half_x == value / 2,
            odd == (value % 2 == 1),
            first == -reach(value as nat),
            end == reach(value as nat) + 1,
            first <= x <= end,
            i32::MIN <= spot_x + first,
            spot_x + end - 1 <= i32::MAX,
            screen@ == old(screen)@ + disk_glyphs(
                value as nat,
                spot_x as int,
                spot_y as int,
            ).take(x - first),
        decreases end - x,
    {
        let glyph: char = if x == -1 && value >= 10 {
            digit(value / 10)
        } else if x == 0 {
            digit(value % 10)
        } else if x == first {
            if odd {
                '{'
            } else {
                '['
            }
        } else if x == end - 1 {
            if odd {
                '}'
            } else {
                ']'
            }
        } else {
            '='
        };
        let ghost all = disk_glyphs(value as nat, spot_x as int, spot_y as int);
        assert(all.take(x - first + 1) =~= all.take(x - first).push(all[x - first]));
        screen.push(Glyph { x: spot_x + x, y: spot_y, ch: glyph });
        x += 1;
    }
    assert(disk_glyphs(value as nat, spot_x as int, spot_y as int).take(end - first)
        =~= disk_glyphs(value as nat, spot_x as int, spot_y as int));
}

/// The widest row of poles that can be drawn, in columns: with half a
/// screen and a disk to either side of it, every column is a 32-bit number.
pub const MAX_ROW_WIDTH: usize = 0x7fff_ff00;

/// The distance between two neighbouring poles in columns.
pub open spec fn pole_step(disk_count: nat) -> int {
    disk_count + PADDING
}

/// The width of the row of poles in columns.
pub open spec fn row_width(board: BoardView) -> int {
    board.poles.len() * pole_step(board.disk_count)
}

/// The board can be drawn: every disk's size has at most two digits and
/// the row of poles is not too wide.
pub open spec fn drawable(board: BoardView) -> bool {
    board.disk_count <= MAX_DISK && row_width(board) <= MAX_ROW_WIDTH
}

/// The column of a pole. The poles are centred on the screen as a group,
/// one pole step apart.
pub open spec fn pole_x(board: BoardView, index: int) -> int {
    SCREEN_WIDTH / 2 + (index - (board.poles.len() / 2) as int) * pole_step(board.disk_count)
}

/// The row of the bottom disks. The poles are centred on the screen by their height.
pub open spec fn base_y(board: BoardView) -> int {
    SCREEN_HEIGHT / 2 + (board.disk_count / 2) as int
}

/// The row of the cursor's marker, above the poles.
pub open spec fn marker_y(board: BoardView) -> int {
    SCREEN_HEIGHT / 2 - (board.disk_count / 2) as int - 4
}

/// One level of a pole in column `x`, the bottom level in row `y`: the disk
/// that rests there, or the bare pole above the disks.
pub open spec fn level_glyphs(pole: Seq<nat>, level: int, x: int, y: int) -> Seq<Glyph> {
    if level >= pole.len() {
        seq![glyph_at(x, y - level, '|')]
    } else {
        disk_glyphs(pole[level], x, y - level)
    }
}

/// The lowest `levels` levels of a pole, from the bottom up.
pub open spec fn pole_glyphs(pole: Seq<nat>, levels: nat, x: int, y: int) -> Seq<Glyph>
    decreases levels,
{
    if levels == 0 {
        Seq::empty()
    } else {
        pole_glyphs(pole, (levels - 1) as nat, x, y) + level_glyphs(pole, levels - 1, x, y)
    }
}

/// The cursor's marker above a pole in column `x`, and in the row above the
/// marker the held disk, if one is held.
pub open spec fn cursor_glyphs(board: BoardView, x: int) -> Seq<Glyph> {
    seq![glyph_at(x, marker_y(board), '@')] + match board.held {
        Some(disk) => disk_glyphs(disk, x, marker_y(board) - 1),
        None => Seq::empty(),
    }
}

/// The held disk is drawn in the row above the cursor's marker.
pub proof fn law_held_disk_above_marker(board: BoardView, x: int, i: int)
    requires
        board.held is Some,
        board.disk_count <= MAX_DISK,
        1 <= i < cursor_glyphs(board, x).len(),
    ensures
        cursor_glyphs(board, x)[0].y == marker_y(board),
        cursor_glyphs(board, x)[0].ch == '@',
        cursor_glyphs(board, x)[i].y == marker_y(board) - 1,
        cursor_glyphs(board, x).len() == 2 * reach(board.held->0) + 2,
{
}

/// One pole of the board: a level for each disk in play and one more, and
/// the cursor above the pole if it is there.
pub open spec fn column_glyphs(board: BoardView, index: int) -> Seq<Glyph> {
    pole_glyphs(
        board.poles[index],
        board.disk_count + 1,
        pole_x(board, index),
        base_y(board),
    ) + if index == board.cursor {
        cursor_glyphs(board, pole_x(board, index))
    } else {
        Seq::empty()
    }
}

/// The first `count` poles of the board, from left to right.
pub open spec fn columns_glyphs(board: BoardView, count: nat) -> Seq<Glyph>
    decreases count,
{
    if count == 0 {
        Seq::empty()
    } else {
        columns_glyphs(board, (count - 1) as nat) + column_glyphs(board, count - 1)
    }
}

/// The whole board, pole by pole from left to right.
pub open spec fn board_glyphs(board: BoardView) -> Seq<Glyph> {
    columns_glyphs(board, board.poles.len())
}

/// Whether the board can be drawn.
pub fn can_draw(board: &Board) -> (ok: bool)
    ensures
        ok == drawable(board@),
{
    let disks: usize = board.disk_count();
    let poles: usize = board.pole_count();
    if disks > MAX_DISK {
        return false;
    }
    let step: usize = disks + 2;
    let most: usize = MAX_ROW_WIDTH / step;
    proof {
        let limit = MAX_ROW_WIDTH as int;
        let s = step as int;
        let p = poles as int;
        assert(limit / s * s <= limit < (limit / s + 1) * s) by (nonlinear_arith)
            requires
                s > 0,
                limit >= 0,
        ;
        assert(p <= limit / s <==> p * s <= limit) by (nonlinear_arith)
            requires
                s > 0,
                p >= 0,
                limit / s * s <= limit < (limit / s + 1) * s,
        ;
    }
    poles <= most
}

/// Every column of a drawable board is a 32-bit number, with room for a
/// disk to either side.
proof fn lemma_pole_x_fits(board: BoardView, index: int)
    requires
        drawable(board),
        0 <= index <= board.poles.len(),
    ensures
        -(MAX_ROW_WIDTH as int) <= (index - (board.poles.len() / 2) as int) * pole_step(
            board.disk_count,
        ) <= MAX_ROW_WIDTH,
        pole_x(board, index + 1) == pole_x(board, index) + pole_step(board.disk_count),
        (board.poles.len() / 2) as int * pole_step(board.disk_count) <= MAX_ROW_WIDTH,
{
    let p = board.poles.len() as int;
    let h = (board.poles.len() / 2) as int;
    let s = pole_step(board.disk_count);
    assert(-(p * s) <= (index - h) * s <= p * s) by (nonlinear_arith)
        requires
            0 <= index <= p,
            0 <= h <= p,
            s >= 0,
    ;
    assert((index + 1 - h) * s == (index - h) * s + s) by (nonlinear_arith);
    assert(h * s <= p * s) by (nonlinear_arith)
        requires
            0 <= h <= p,
            s >= 0,
    ;
}

/// Draws the board: every pole with its disks from the bottom up and the
/// bare pole above them, and over the pole under the cursor the marker and
/// the held disk.
pub fn draw_board(screen: &mut Vec<Glyph>, board: &Board)
    requires
        board.wf(),
        drawable(board@),
    ensures
        final(screen)@ == old(screen)@ + board_glyphs(board@),
{
    let poles: usize = board.pole_count();
    let disks: usize = board.disk_count();
    proof {
        lemma_pole_x_fits(board@, 0);
        assert(poles * 2 <= row_width(board@)) by (nonlinear_arith)
            requires
                row_width(board@) == poles * pole_step(board@.disk_count),
                pole_step(board@.disk_count) >= 2,
        ;
    }
    let step: i32 = disks as i32 + PADDING;
    let half_len: i32 = (poles / 2) as i32;
    let spot_y: i32 = SCREEN_HEIGHT / 2 + (disks / 2) as i32;
    let mark_y: i32 = SCREEN_HEIGHT / 2 - (disks / 2) as i32 - 4;
    assert(half_len * step == (board@.poles.len() / 2) as int * pole_step(board@.disk_count));
    let mut spot_x: i32 = SCREEN_WIDTH / 2 - half_len * step;
    assert(spot_x == pole_x(board@, 0)) by (nonlinear_arith)
        requires
            spot_x == SCREEN_WIDTH / 2 - half_len * step,
            pole_x(board@, 0) == SCREEN_WIDTH / 2 + (0 - half_len) * step,
    ;
    let mut x: usize = 0;
    while x < poles
        invariant
            board.wf(),
            drawable(board@),
            poles == board@.poles.len(),
            disks == board@.disk_count,
            step == pole_step(board@.disk_count),
            spot_y == base_y(board@),
            mark_y == marker_y(board@),
            x <= poles,
            spot_x == pole_x(board@, x as int),
            screen@ == old(screen)@ + columns_glyphs(board@, x as nat),
        decreases poles - x,
    {
        proof {
            lemma_pole_x_fits(board@, x as int);
            lemma_pole_x_fits(board@, x + 1);
        }
        let ghost column_start = screen@;
        let pole = board.pole(x);
        let mut y: usize = 0;
        while y <= disks
            invariant
                board.wf(),
                drawable(board@),
                x < board@.poles.len(),
                disks == board@.disk_count,
                sizes(pole@) == board@.poles[x as int],
                spot_y == base_y(board@),
                -(MAX_ROW_WIDTH as int) + SCREEN_WIDTH / 2 <= spot_x <= MAX_ROW_WIDTH
                    + SCREEN_WIDTH / 2,
                y <= disks + 1,
                screen@ == column_start + pole_glyphs(
                    board@.poles[x as int],
                    y as nat,
                    spot_x as int,
                    spot_y as int,
                ),
            decreases disks + 1 - y,
        {
            let ghost so_far = pole_glyphs(
                board@.poles[x as int],
                y as nat,
                spot_x as int,
                spot_y as int,
            );
            let ghost level = level_glyphs(
                board@.poles[x as int],
                y as int,
                spot_x as int,
                spot_y as int,
            );
            if y >= pole.len() {
                screen.push(Glyph { x: spot_x, y: spot_y - y as i32, ch: '|' });
                assert(screen@ =~= column_start + (so_far + level));
            } else {
                proof {
                    board@.lemma_disk_in_range(x as int, y as int);
                }
                draw_disk(screen, pole[y], spot_x, spot_y - y as i32);
                assert(screen@ =~= column_start + (so_far + level));
            }
            y += 1;
        }
        let ghost pole_done = screen@;
        if x == board.cursor() {
            screen.push(Glyph { x: spot_x, y: mark_y, ch: '@' });
            match board.held() {
                Some(disk) => {
                    proof {
                        board@.lemma_held_in_range();
                    }
                    draw_disk(screen, disk, spot_x, mark_y - 1);
                },
                None => {},
            }
            assert(screen@ =~= pole_done + cursor_glyphs(board@, spot_x as int));
        }
        assert(screen@ =~= old(screen)@ + (columns_glyphs(board@, x as nat) + column_glyphs(
            board@,
            x as int,
        )));
        x += 1;
        spot_x += step;
    }
}

/// The column in which a text starts: at the anchor, or, where the text is
/// centred, to the left of it by half the text's length in bytes.
pub open spec fn label_start(text: Seq<char>, anchor: int, center: bool) -> int {
    if center {
        anchor - (encode_utf8(text).len() / 2) as int
    } else {
        anchor
    }
}

/// A text written from column `x` on in row `y`, one character per column.
pub open spec fn text_glyphs(text: Seq<char>, x: int, y: int) -> Seq<Glyph> {
    Seq::new(text.len(), |i: int| glyph_at(x + i, y, text[i]))
}

/// A text in row `y`, started at or centred on the column `anchor`.
pub open spec fn label_glyphs(text: Seq<char>, y: int, anchor: int, center: bool) -> Seq<Glyph> {
    text_glyphs(text, label_start(text, anchor, center), y)
}

/// Every column of the text is a 32-bit number.
pub open spec fn label_fits(text: Seq<char>, anchor: int, center: bool) -> bool {
    &&& encode_utf8(text).len() <= i32::MAX
    &&& i32::MIN <= label_start(text, anchor, center)
    &&& label_start(text, anchor, center) + text.len() <= i32::MAX
}

/// Writes a text in row `y`, started at or centred on the column `anchor`.
pub fn label(screen: &mut Vec<Glyph>, text: &str, y: i32, anchor: i32, center: bool)
    requires
        label_fits(text@, anchor as int, center),
    ensures
        final(screen)@ == old(screen)@ + label_glyphs(text@, y as int, anchor as int, center),
{
    let half: i32 = if center {
        (text.len() / 2) as i32
    } else {
        0
    };
    let start: i32 = anchor - half;
    let mut x: i32 = start;
    let ghost all = text_glyphs(text@, start as int, y as int);
    for c in it: text.chars()
        invariant
            x == start + it.index(),
            it.seq() == text@,
            start + text@.len() <= i32::MAX,
            all == text_glyphs(text@, start as int, y as int),
            screen@ == old(screen)@ + all.take(it.index() as int),
    {
        assert(all.take(it.index() + 1) =~= all.take(it.index() as int).push(all[it.index() as int]));
        screen.push(Glyph { x, y, ch: c });
        x += 1;
    }
    assert(all.take(text@.len() as int) =~= all);
}

} // verus!
