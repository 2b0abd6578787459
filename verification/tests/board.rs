use tower_of_hanoi::board::Board;

fn move_disk(board: &mut Board, from: usize, to: usize) {
    while board.cursor() > from {
        board.move_cursor(-1);
    }
    while board.cursor() < from {
        board.move_cursor(1);
    }
    assert!(board.grab());
    while board.cursor() > to {
        board.move_cursor(-1);
    }
    while board.cursor() < to {
        board.move_cursor(1);
    }
    board.drop();
}

fn disks_in_play(board: &Board) -> Vec<usize> {
    let mut disks: Vec<usize> = Vec::new();
    for index in 0..board.pole_count() {
        disks.extend(board.pole(index).iter().copied());
    }
    disks.extend(board.held());
    disks.sort();
    disks
}

fn stacked_in_order(board: &Board) -> bool {
    (0..board.pole_count()).all(|index| board.pole(index).windows(2).all(|pair| pair[0] >= pair[1]))
}

#[test]
fn new_board_has_all_disks_on_the_first_pole() {
    let board = Board::new(3, 3);
    assert_eq!(board.pole_count(), 3);
    assert_eq!(board.disk_count(), 3);
    assert_eq!(board.pole(0), &vec![3, 2, 1]);
    assert_eq!(board.pole(1), &Vec::<usize>::new());
    assert_eq!(board.pole(2), &Vec::<usize>::new());
    assert_eq!(board.cursor(), 0);
    assert_eq!(board.held(), None);
    assert_eq!(board.move_count(), 0);
    assert_eq!(board.last_dropped(), None);
    assert!(!board.is_won());
}

#[test]
fn new_board_with_twelve_disks_counts_down_from_twelve() {
    let board = Board::new(7, 12);
    assert_eq!(board.pole(0), &vec![12, 11, 10, 9, 8, 7, 6, 5, 4, 3, 2, 1]);
    for index in 1..7 {
        assert!(board.pole(index).is_empty());
    }
}

#[test]
fn new_board_without_disks_is_solved_at_once() {
    let board = Board::new(3, 0);
    assert!(board.pole(0).is_empty());
    assert!(board.is_won());
}

#[test]
fn new_board_with_one_pole_is_solved_at_once() {
    let board = Board::new(1, 4);
    assert_eq!(board.pole(0), &vec![4, 3, 2, 1]);
    assert!(board.is_won());
}

#[test]
fn three_disks_are_solved_in_seven_moves() {
    let mut board = Board::new(3, 3);
    assert!(board.grab());
    assert_eq!(board.held(), Some(1));
    assert_eq!(board.pole(0), &vec![3, 2]);
    board.move_cursor(1);
    board.move_cursor(1);
    assert_eq!(board.cursor(), 2);
    assert!(board.drop());
    assert_eq!(board.pole(2), &vec![1]);
    assert_eq!(board.move_count(), 1);
    assert!(!board.is_won());

    move_disk(&mut board, 0, 1);
    move_disk(&mut board, 2, 1);
    move_disk(&mut board, 0, 2);
    move_disk(&mut board, 1, 0);
    move_disk(&mut board, 1, 2);
    assert!(!board.is_won());
    move_disk(&mut board, 0, 2);

    assert_eq!(board.pole(0), &Vec::<usize>::new());
    assert_eq!(board.pole(1), &Vec::<usize>::new());
    assert_eq!(board.pole(2), &vec![3, 2, 1]);
    assert!(board.is_won());
    assert_eq!(board.move_count(), 7);
    assert_eq!(board.held(), None);
}

#[test]
fn drop_onto_a_smaller_disk_is_rejected() {
    let mut board = Board::new(3, 3);
    move_disk(&mut board, 0, 1);
    move_disk(&mut board, 0, 2);
    move_disk(&mut board, 1, 2);
    // Poles: [3], [], [2, 1]. Lift 3 and try to put it on 1.
    board.move_cursor(-2);
    assert!(board.grab());
    assert_eq!(board.held(), Some(3));
    board.move_cursor(2);
    let moves = board.move_count();
    assert!(!board.drop());
    assert_eq!(board.held(), Some(3));
    assert_eq!(board.pole(2), &vec![2, 1]);
    assert_eq!(board.pole(0), &Vec::<usize>::new());
    assert_eq!(board.move_count(), moves);
    assert_eq!(board.last_dropped(), Some(1));
    assert_eq!(board.cursor(), 2);
}

#[test]
fn drop_onto_an_empty_pole_or_a_larger_disk_is_taken() {
    let mut board = Board::new(3, 3);
    assert!(board.grab());
    board.move_cursor(1);
    assert!(board.drop());
    assert_eq!(board.pole(1), &vec![1]);
    board.move_cursor(-1);
    assert!(board.grab());
    assert_eq!(board.held(), Some(2));
    board.move_cursor(1);
    assert!(!board.drop());
    assert_eq!(board.held(), Some(2));
    board.move_cursor(-1);
    assert!(board.drop());
    assert_eq!(board.pole(0), &vec![3, 2]);
}

#[test]
fn drop_with_nothing_held_does_nothing() {
    let mut board = Board::new(3, 3);
    assert!(!board.drop());
    assert_eq!(board.pole(0), &vec![3, 2, 1]);
    assert_eq!(board.move_count(), 0);
    assert_eq!(board.last_dropped(), None);
}

#[test]
fn grab_with_a_disk_held_does_nothing() {
    let mut board = Board::new(3, 3);
    assert!(board.grab());
    assert!(!board.grab());
    assert_eq!(board.held(), Some(1));
    assert_eq!(board.pole(0), &vec![3, 2]);
}

#[test]
fn grab_from_an_empty_pole_does_nothing() {
    let mut board = Board::new(3, 3);
    board.move_cursor(1);
    assert!(!board.grab());
    assert_eq!(board.held(), None);
    assert_eq!(board.pole(1), &Vec::<usize>::new());
}

#[test]
fn disks_are_conserved_through_grabs_and_drops() {
    let mut board = Board::new(4, 5);
    let all = vec![1, 2, 3, 4, 5];
    assert_eq!(disks_in_play(&board), all);
    let steps: [i8; 12] = [1, 2, -1, 3, -3, 1, 1, -2, 3, -1, -1, 2];
    for step in steps {
        board.grab();
        assert_eq!(disks_in_play(&board), all);
        board.move_cursor(step);
        board.drop();
        assert_eq!(disks_in_play(&board), all);
        assert!(stacked_in_order(&board));
    }
    board.reset();
    assert_eq!(disks_in_play(&board), all);
}

#[test]
fn no_disk_rests_on_a_smaller_one_after_any_drop() {
    let mut board = Board::new(3, 4);
    for round in 0..40 {
        board.grab();
        board.move_cursor(if round % 3 == 0 { 1 } else if round % 3 == 1 { -2 } else { 2 });
        board.drop();
        assert!(stacked_in_order(&board));
        board.move_cursor(if round % 2 == 0 { -1 } else { 1 });
    }
}

#[test]
fn cursor_stops_at_the_first_and_the_last_pole() {
    let mut board = Board::new(5, 2);
    board.move_cursor(-1);
    assert_eq!(board.cursor(), 0);
    board.move_cursor(i8::MIN);
    assert_eq!(board.cursor(), 0);
    board.move_cursor(3);
    assert_eq!(board.cursor(), 3);
    board.move_cursor(i8::MAX);
    assert_eq!(board.cursor(), 4);
    board.move_cursor(1);
    assert_eq!(board.cursor(), 4);
    board.move_cursor(-2);
    assert_eq!(board.cursor(), 2);
    board.move_cursor(0);
    assert_eq!(board.cursor(), 2);
    board.move_cursor(i8::MIN);
    assert_eq!(board.cursor(), 0);
}

#[test]
fn cursor_stays_in_range_over_many_moves() {
    let mut board = Board::new(200, 1);
    let mut delta: i8 = 117;
    for _ in 0..500 {
        board.move_cursor(delta);
        assert!(board.cursor() < 200);
        delta = delta.wrapping_mul(31).wrapping_add(7);
    }
    board.move_cursor(127);
    board.move_cursor(127);
    assert_eq!(board.cursor(), 199);
}

#[test]
fn cursor_on_a_single_pole_never_moves() {
    let mut board = Board::new(1, 1);
    board.move_cursor(5);
    assert_eq!(board.cursor(), 0);
    board.move_cursor(-5);
    assert_eq!(board.cursor(), 0);
}

#[test]
fn won_only_when_the_last_pole_holds_every_disk() {
    let mut board = Board::new(3, 2);
    assert!(!board.is_won());
    move_disk(&mut board, 0, 1);
    assert!(!board.is_won());
    move_disk(&mut board, 0, 2);
    assert!(!board.is_won());
    board.move_cursor(-1);
    assert!(board.grab());
    assert!(!board.is_won());
    board.move_cursor(1);
    board.drop();
    assert_eq!(board.pole(2), &vec![2, 1]);
    assert!(board.is_won());
    assert!(board.grab());
    assert!(!board.is_won());
}

#[test]
fn all_disks_on_a_middle_pole_is_not_a_win() {
    let mut board = Board::new(3, 1);
    move_disk(&mut board, 0, 1);
    assert_eq!(board.pole(1), &vec![1]);
    assert!(!board.is_won());
}

#[test]
fn a_drop_of_another_disk_counts_one_move() {
    let mut board = Board::new(3, 3);
    move_disk(&mut board, 0, 2);
    assert_eq!(board.move_count(), 1);
    assert_eq!(board.last_dropped(), Some(1));
    move_disk(&mut board, 0, 1);
    assert_eq!(board.move_count(), 2);
    assert_eq!(board.last_dropped(), Some(2));
}

#[test]
fn dropping_the_same_disk_again_is_not_counted() {
    let mut board = Board::new(3, 3);
    assert!(board.grab());
    assert!(board.drop());
    assert_eq!(board.move_count(), 1);
    assert!(board.grab());
    assert!(!board.drop());
    assert_eq!(board.pole(0), &vec![3, 2, 1]);
    assert_eq!(board.held(), None);
    assert_eq!(board.move_count(), 1);
    // The same disk onto another pole is not counted either.
    assert!(board.grab());
    board.move_cursor(2);
    assert!(!board.drop());
    assert_eq!(board.pole(2), &vec![1]);
    assert_eq!(board.move_count(), 1);
    // Another disk in between counts, and then the first one counts again.
    move_disk(&mut board, 0, 1);
    assert_eq!(board.move_count(), 2);
    move_disk(&mut board, 2, 1);
    assert_eq!(board.move_count(), 3);
}

#[test]
fn drop_scores_tells_what_drop_will_say() {
    let mut board = Board::new(3, 3);
    assert!(!board.drop_scores());
    assert!(board.grab());
    assert!(board.drop_scores());
    assert!(board.drop());
    assert!(board.grab());
    assert!(!board.drop_scores());
    assert!(!board.drop());
}

#[test]
fn reset_restores_the_start() {
    let mut board = Board::new(4, 3);
    move_disk(&mut board, 0, 3);
    move_disk(&mut board, 0, 2);
    board.move_cursor(-2);
    assert!(board.grab());
    assert_eq!(board.held(), Some(3));
    board.move_cursor(1);
    board.reset();
    assert_eq!(board.pole(0), &vec![3, 2, 1]);
    assert!(board.pole(1).is_empty());
    assert!(board.pole(2).is_empty());
    assert!(board.pole(3).is_empty());
    assert_eq!(board.held(), None);
    assert_eq!(board.move_count(), 0);
    assert_eq!(board.last_dropped(), None);
    assert_eq!(board.cursor(), 1);
    assert_eq!(board.pole_count(), 4);
    assert_eq!(board.disk_count(), 3);
}

#[test]
fn reset_of_a_solved_puzzle_starts_over() {
    let mut board = Board::new(3, 1);
    move_disk(&mut board, 0, 2);
    assert!(board.is_won());
    board.reset();
    assert!(!board.is_won());
    assert_eq!(board.pole(0), &vec![1]);
    assert_eq!(board.move_count(), 0);
    // After a reset the disk placed last is forgotten: the same disk counts.
    move_disk(&mut board, 0, 2);
    assert_eq!(board.move_count(), 1);
}

#[test]
fn board_can_be_printed_for_inspection() {
    let board = Board::new(3, 2);
    let text = format!("{:?}", board);
    assert!(text.contains("Board"));
}
