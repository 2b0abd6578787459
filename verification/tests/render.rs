use tower_of_hanoi::board::Board;
use tower_of_hanoi::menu::Menu;
use tower_of_hanoi::render::{can_draw, digit, draw_board, draw_disk, label, Glyph};
use tower_of_hanoi::screens::{
    draw_menu, draw_play, draw_win, push_decimal, win_feedback, win_message,
};

fn paint(glyphs: &[Glyph]) -> Vec<String> {
    let mut rows = vec![vec![' '; 108]; 32];
    for glyph in glyphs {
        assert!(glyph.x >= 0 && glyph.x < 108, "column {} is off the screen", glyph.x);
        assert!(glyph.y >= 0 && glyph.y < 32, "row {} is off the screen", glyph.y);
        rows[glyph.y as usize][glyph.x as usize] = glyph.ch;
    }
    rows.into_iter().map(|row| row.into_iter().collect::<String>().trim_end().to_string()).collect()
}

fn text_of(glyphs: &[Glyph]) -> String {
    glyphs.iter().map(|glyph| glyph.ch).collect()
}

fn at(text: &str, column: usize) -> String {
    format!("{}{}", " ".repeat(column), text)
}

#[test]
fn digits_are_the_decimal_characters() {
    let all: String = (0..10).map(digit).collect();
    assert_eq!(all, "0123456789");
}

#[test]
fn disk_of_size_one_is_three_columns_wide() {
    let mut screen = Vec::new();
    draw_disk(&mut screen, 1, 10, 5);
    assert_eq!(
        screen,
        vec![
            Glyph { x: 9, y: 5, ch: '{' },
            Glyph { x: 10, y: 5, ch: '1' },
            Glyph { x: 11, y: 5, ch: '}' },
        ]
    );
}

#[test]
fn disks_have_square_tips_when_even_and_curly_tips_when_odd() {
    let mut screen = Vec::new();
    draw_disk(&mut screen, 2, 20, 0);
    assert_eq!(text_of(&screen), "[=2=]");
    assert_eq!(screen[0].x, 18);
    assert_eq!(screen[4].x, 22);
    let mut screen = Vec::new();
    draw_disk(&mut screen, 3, 20, 0);
    assert_eq!(text_of(&screen), "{=3=}");
    let mut screen = Vec::new();
    draw_disk(&mut screen, 7, 20, 0);
    assert_eq!(text_of(&screen), "{===7===}");
    let mut screen = Vec::new();
    draw_disk(&mut screen, 8, 20, 0);
    assert_eq!(text_of(&screen), "[====8====]");
    assert_eq!(screen[5], Glyph { x: 20, y: 0, ch: '8' });
}

#[test]
fn disks_from_ten_on_show_two_digits() {
    let mut screen = Vec::new();
    draw_disk(&mut screen, 10, 30, 3);
    assert_eq!(text_of(&screen), "[====10=====]");
    assert_eq!(screen[0].x, 24);
    assert_eq!(screen[5], Glyph { x: 29, y: 3, ch: '1' });
    assert_eq!(screen[6], Glyph { x: 30, y: 3, ch: '0' });
    assert_eq!(screen[12].x, 36);
    let mut screen = Vec::new();
    draw_disk(&mut screen, 11, 30, 3);
    assert_eq!(text_of(&screen), "{====11=====}");
    let mut screen = Vec::new();
    draw_disk(&mut screen, 12, 30, 3);
    assert_eq!(text_of(&screen), "[=====12======]");
    let mut screen = Vec::new();
    draw_disk(&mut screen, 99, 60, 3);
    assert_eq!(screen.len(), 101);
    assert_eq!(screen[0], Glyph { x: 10, y: 3, ch: '{' });
    assert_eq!(screen[49], Glyph { x: 59, y: 3, ch: '9' });
    assert_eq!(screen[50], Glyph { x: 60, y: 3, ch: '9' });
    assert_eq!(screen[100], Glyph { x: 110, y: 3, ch: '}' });
}

#[test]
fn disk_is_added_after_what_the_screen_holds() {
    let mut screen = vec![Glyph { x: 1, y: 2, ch: 'x' }];
    draw_disk(&mut screen, 1, -5, -7);
    assert_eq!(screen.len(), 4);
    assert_eq!(screen[0], Glyph { x: 1, y: 2, ch: 'x' });
    assert_eq!(screen[1], Glyph { x: -6, y: -7, ch: '{' });
    assert_eq!(screen[3], Glyph { x: -4, y: -7, ch: '}' });
}

#[test]
fn label_starts_at_the_anchor() {
    let mut screen = Vec::new();
    label(&mut screen, "Poles", 16, 47, false);
    assert_eq!(text_of(&screen), "Poles");
    let columns: Vec<i32> = screen.iter().map(|glyph| glyph.x).collect();
    assert_eq!(columns, vec![47, 48, 49, 50, 51]);
    assert!(screen.iter().all(|glyph| glyph.y == 16));
}

#[test]
fn label_is_centred_on_the_anchor() {
    let mut screen = Vec::new();
    label(&mut screen, "Rusty Tower Of Hanoi", 1, 54, true);
    assert_eq!(screen.len(), 20);
    assert_eq!(screen[0], Glyph { x: 44, y: 1, ch: 'R' });
    assert_eq!(screen[19], Glyph { x: 63, y: 1, ch: 'i' });
    let mut screen = Vec::new();
    label(&mut screen, "odd", 0, 10, true);
    assert_eq!(screen[0].x, 9);
    let mut screen = Vec::new();
    label(&mut screen, "", 0, 10, true);
    assert!(screen.is_empty());
}

#[test]
fn label_is_centred_by_the_length_in_bytes() {
    let mut screen = Vec::new();
    label(&mut screen, "\u{e9}t\u{e9}", 4, 20, true);
    // Three characters in five bytes: the text starts two columns to the left.
    assert_eq!(
        screen,
        vec![
            Glyph { x: 18, y: 4, ch: '\u{e9}' },
            Glyph { x: 19, y: 4, ch: 't' },
            Glyph { x: 20, y: 4, ch: '\u{e9}' },
        ]
    );
}

#[test]
fn fresh_board_of_three_is_drawn_pole_by_pole() {
    let board = Board::new(3, 3);
    assert!(can_draw(&board));
    let mut screen = Vec::new();
    draw_board(&mut screen, &board);
    let rows = paint(&screen);
    assert_eq!(rows[11], at("@", 49));
    assert_eq!(rows[14], at("|    |    |", 49));
    assert_eq!(rows[15], at("{1}   |    |", 48));
    assert_eq!(rows[16], at("[=2=]  |    |", 47));
    assert_eq!(rows[17], at("{=3=}  |    |", 47));
    for (index, row) in rows.iter().enumerate() {
        if ![11, 14, 15, 16, 17].contains(&index) {
            assert_eq!(row, "");
        }
    }
    // Bottom up on the first pole, then the marker, then the other poles.
    assert_eq!(screen[0], Glyph { x: 47, y: 17, ch: '{' });
    assert_eq!(screen[13], Glyph { x: 49, y: 14, ch: '|' });
    assert_eq!(screen[14], Glyph { x: 49, y: 11, ch: '@' });
    assert_eq!(screen[15], Glyph { x: 54, y: 17, ch: '|' });
    assert_eq!(screen.len(), 23);
}

#[test]
fn held_disk_floats_above_the_marker() {
    let mut board = Board::new(3, 3);
    board.grab();
    board.move_cursor(2);
    let mut screen = Vec::new();
    draw_board(&mut screen, &board);
    let rows = paint(&screen);
    assert_eq!(rows[10], at("{1}", 58));
    assert_eq!(rows[11], at("@", 59));
    assert_eq!(rows[12], "");
    assert_eq!(rows[14], at("|    |    |", 49));
    assert_eq!(rows[15], at("|    |    |", 49));
    assert_eq!(rows[16], at("[=2=]  |    |", 47));
    assert_eq!(rows[17], at("{=3=}  |    |", 47));
}

#[test]
fn largest_board_of_the_menu_stays_on_the_screen() {
    let mut board = Board::new(7, 12);
    board.move_cursor(6);
    let mut screen = Vec::new();
    draw_board(&mut screen, &board);
    let rows = paint(&screen);
    assert_eq!(rows[22], format!("{}{}", at("[=====12======]", 5), "      |".repeat(1) + &"             |".repeat(5)));
    assert_eq!(rows[6], at("@", 96));
    let leftmost = screen.iter().map(|glyph| glyph.x).min();
    let rightmost = screen.iter().map(|glyph| glyph.x).max();
    assert_eq!(leftmost, Some(5));
    assert_eq!(rightmost, Some(96));
    board.grab();
    let mut screen = Vec::new();
    draw_board(&mut screen, &board);
    assert!(paint(&screen)[5].is_empty());
    board.move_cursor(-6);
    board.grab();
    board.move_cursor(6);
    let mut screen = Vec::new();
    draw_board(&mut screen, &board);
    assert_eq!(paint(&screen)[5], at("{1}", 95));
    assert_eq!(paint(&screen)[6], at("@", 96));
    assert!(paint(&screen)[7].is_empty());
}

#[test]
fn board_with_an_even_number_of_poles_leans_left() {
    let board = Board::new(4, 1);
    let mut screen = Vec::new();
    draw_board(&mut screen, &board);
    let rows = paint(&screen);
    assert_eq!(rows[16], at("{1} |  |  |", 47));
    assert_eq!(rows[15], at("|  |  |  |", 48));
    assert_eq!(rows[12], at("@", 48));
}

#[test]
fn boards_that_are_too_large_cannot_be_drawn() {
    assert!(can_draw(&Board::new(1, 0)));
    assert!(can_draw(&Board::new(3, 99)));
    assert!(!can_draw(&Board::new(3, 100)));
    assert!(can_draw(&Board::new(1000, 0)));
}

#[test]
fn menu_screen_shows_both_options() {
    let mut screen = Vec::new();
    draw_menu(&mut screen, &Menu::new());
    let rows = paint(&screen);
    assert_eq!(rows[1], at("Rusty Tower Of Hanoi", 44));
    assert_eq!(rows[8], at("Arrow keys: Change rules", 42));
    assert_eq!(rows[14], at("/\\", 44));
    assert_eq!(rows[16], at("03 Poles    03 Disks", 44));
    assert_eq!(rows[18], at("\\/", 44));
    assert_eq!(rows[29], at("Press Enter to play!", 44));
}

#[test]
fn menu_screen_marks_the_selected_option() {
    let menu = Menu { cursor: 1, poles: 7, disks: 12 };
    let mut screen = Vec::new();
    draw_menu(&mut screen, &menu);
    let rows = paint(&screen);
    assert_eq!(rows[14], at("/\\", 56));
    assert_eq!(rows[16], at("07 Poles    12 Disks", 44));
    assert_eq!(rows[18], at("\\/", 56));
}

#[test]
fn play_screen_shows_the_rules_and_the_board() {
    let board = Board::new(3, 3);
    let mut screen = Vec::new();
    draw_play(&mut screen, &board);
    let rows = paint(&screen);
    assert_eq!(rows[1], at("Stack all disks on the rightmost pole", 36));
    assert_eq!(rows[2], at("You can't stack a disk on top of a smaller disk", 31));
    assert_eq!(rows[29], at("Left/Right: move | UP: pick disk | Down: drop disk", 29));
    assert_eq!(rows[30], at("R: reset | Esc: main menu", 42));
    assert_eq!(rows[17], at("{=3=}  |    |", 47));
    assert_eq!(rows[11], at("@", 49));
}

#[test]
fn numbers_are_written_in_decimal() {
    for (number, digits) in [
        (0usize, "0"),
        (7, "7"),
        (10, "10"),
        (99, "99"),
        (100, "100"),
        (4095, "4095"),
        (1_000_000, "1000000"),
    ] {
        let mut text = String::from("n=");
        push_decimal(&mut text, number);
        assert_eq!(text, format!("n={}", digits));
    }
    let mut text = String::new();
    push_decimal(&mut text, usize::MAX);
    assert_eq!(text, usize::MAX.to_string());
}

#[test]
fn moves_are_told_in_singular_and_plural() {
    assert_eq!(win_message(0), "solved in 0 move ");
    assert_eq!(win_message(1), "solved in 1 move ");
    assert_eq!(win_message(2), "solved in 2 moves");
    assert_eq!(win_message(7), "solved in 7 moves");
    assert_eq!(win_message(4095), "solved in 4095 moves");
}

#[test]
fn praise_depends_on_poles_and_disks() {
    let debugging = "Good job debugging, now play the game -_-'";
    let unexpected = "Hmmmmmm.... that's uhh.. unexpected";
    assert_eq!(win_feedback(3, 1), debugging);
    assert_eq!(win_feedback(3, 2), "Wow! That was easy huhh...?");
    assert_eq!(win_feedback(3, 3), "Well done!");
    assert_eq!(win_feedback(3, 4), "Good job!");
    assert_eq!(win_feedback(3, 5), "Smart!");
    assert_eq!(win_feedback(3, 6), "Very Smart!");
    assert_eq!(win_feedback(3, 7), "Amazing!");
    assert_eq!(win_feedback(3, 8), "You are crazy!!");
    assert_eq!(win_feedback(3, 9), "Wow! That's impressive :o");
    assert_eq!(win_feedback(3, 10), "Wow! That's impressive :o");
    assert_eq!(win_feedback(3, 11), "You. Are. A. Legend");
    assert_eq!(win_feedback(3, 12), "How in the.....???");
    assert_eq!(win_feedback(3, 13), unexpected);
    assert_eq!(win_feedback(3, 0), unexpected);
    assert_eq!(win_feedback(4, 1), debugging);
    assert_eq!(win_feedback(5, 2), debugging);
    assert_eq!(win_feedback(4, 3), "Well done! I guess...");
    assert_eq!(win_feedback(5, 5), "Well done! I guess...");
    assert_eq!(win_feedback(4, 6), "Is it actually hard?");
    assert_eq!(win_feedback(5, 10), "Is it actually hard?");
    assert_eq!(win_feedback(4, 11), "This probably requires some thinking");
    assert_eq!(win_feedback(5, 13), "This probably requires some thinking");
    assert_eq!(win_feedback(4, 14), unexpected);
    assert_eq!(win_feedback(5, 0), unexpected);
    assert_eq!(win_feedback(6, 1), debugging);
    assert_eq!(win_feedback(7, 12), debugging);
    assert_eq!(win_feedback(100, 0), debugging);
    assert_eq!(win_feedback(2, 3), "Wait, that's ilegal!");
    assert_eq!(win_feedback(0, 0), "Wait, that's ilegal!");
}

#[test]
fn win_screen_shows_praise_moves_and_the_board() {
    let mut board = Board::new(3, 1);
    board.grab();
    board.move_cursor(2);
    board.drop();
    assert!(board.is_won());
    let mut screen = Vec::new();
    draw_win(&mut screen, &board);
    let rows = paint(&screen);
    assert_eq!(rows[3], at("You solved the puzzle! :D", 42));
    assert_eq!(rows[5], at("Good job debugging, now play the game -_-'", 33));
    assert_eq!(rows[7], at("solved in 1 move", 46));
    assert_eq!(rows[12], at("@", 57));
    assert_eq!(rows[15], at("|  |  |", 51));
    assert_eq!(rows[16], at("|  | {1}", 51));
}
