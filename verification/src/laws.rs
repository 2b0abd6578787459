//! What holds of every board, however it was played.

use crate::model::{
    all_disks, disks_on, lemma_all_disks_count, lemma_disks_on_includes,
    lemma_disks_on_includes_both, stacked, start_poles, tower, BoardView,
};
use vstd::prelude::*;

verus! {

/// One operation of the game on a board.
pub enum Op {
    /// Move the cursor by so many poles, to the right where positive.
    Move(int),
    /// Lift the top disk of the pole under the cursor.
    Grab,
    /// Place the held disk on the pole under the cursor.
    Drop,
    /// Start the puzzle over.
    Reset,
}

/// The board after one operation.
pub open spec fn apply(board: BoardView, op: Op) -> BoardView {
    match op {
        Op::Move(delta) => board.move_cursor(delta),
        Op::Grab => board.grab(),
        Op::Drop => board.drop(),
        Op::Reset => board.reset(),
    }
}

/// The board after a sequence of operations, the first of them applied first.
pub open spec fn run(board: BoardView, ops: Seq<Op>) -> BoardView
    decreases ops.len(),
{
    if ops.len() == 0 {
        board
    } else {
        apply(run(board, ops.drop_last()), ops.last())
    }
}

/// One operation keeps a valid board valid, and changes neither the number
/// of poles nor the number of disks.
pub proof fn law_apply_keeps_valid(board: BoardView, op: Op)
    requires
        board.wf(),
    ensures
        apply(board, op).wf(),
        apply(board, op).poles.len() == board.poles.len(),
        apply(board, op).disk_count == board.disk_count,
{
    match op {
        Op::Move(delta) => board.lemma_move_cursor_wf(delta),
        Op::Grab => board.lemma_grab_wf(),
        Op::Drop => board.lemma_drop_wf(),
        Op::Reset => board.lemma_reset_wf(),
    }
}

/// Any sequence of operations keeps a valid board valid.
pub proof fn law_run_keeps_valid(board: BoardView, ops: Seq<Op>)
    requires
        board.wf(),
    ensures
        run(board, ops).wf(),
        run(board, ops).poles.len() == board.poles.len(),
        run(board, ops).disk_count == board.disk_count,
    decreases ops.len(),
{
    if ops.len() > 0 {
        law_run_keeps_valid(board, ops.drop_last());
        law_apply_keeps_valid(run(board, ops.drop_last()), ops.last());
    }
}

/// After any sequence of operations the disks on the poles, together with
/// the held disk, are exactly the disks `1..=disk_count`, each once.
pub proof fn law_disks_conserved(board: BoardView, ops: Seq<Op>)
    requires
        board.wf(),
    ensures
        run(board, ops).disks() == all_disks(board.disk_count),
{
    law_run_keeps_valid(board, ops);
}

/// After any sequence of operations no disk on any pole rests on a smaller one.
pub proof fn law_stacking_kept(board: BoardView, ops: Seq<Op>, pole: int)
    requires
        board.wf(),
        0 <= pole < board.poles.len(),
    ensures
        stacked(run(board, ops).poles[pole]),
{
    law_run_keeps_valid(board, ops);
}

/// After any sequence of operations, with cursor moves of any distance
/// among them, the cursor is on one of the poles.
pub proof fn law_cursor_in_range(board: BoardView, ops: Seq<Op>)
    requires
        board.wf(),
    ensures
        0 <= run(board, ops).cursor < board.poles.len(),
{
    law_run_keeps_valid(board, ops);
}

/// A cursor move of any distance from any pole ends on a pole, also where
/// the board holds no valid arrangement of disks.
pub proof fn law_move_cursor_in_range(board: BoardView, delta: int)
    requires
        board.poles.len() >= 1,
    ensures
        0 <= board.move_cursor(delta).cursor < board.poles.len(),
{
}

/// Each disk of the pole is strictly smaller than the disk it rests on.
pub open spec fn strictly_stacked(pole: Seq<nat>) -> bool {
    forall|i: int, j: int| 0 <= i < j < pole.len() ==> pole[i] > pole[j]
}

/// A drop, whether it places the held disk, is refused or finds no disk
/// held, leaves the disks of the board as they are: those on the poles
/// together with the held one. This holds of every board whose cursor is
/// on a pole, whatever its count of moves.
pub proof fn law_drop_conserves_disks(board: BoardView)
    requires
        0 <= board.cursor < board.poles.len(),
    ensures
        board.drop().disks() == board.disks(),
        board.drop().disk_count == board.disk_count,
        board.drop().poles.len() == board.poles.len(),
{
    board.lemma_drop_conserves_disks();
}

/// A grab, whether it lifts a disk or not, leaves the disks of the board
/// as they are: those on the poles together with the held one.
pub proof fn law_grab_conserves_disks(board: BoardView)
    requires
        0 <= board.cursor < board.poles.len(),
    ensures
        board.grab().disks() == board.disks(),
        board.grab().disk_count == board.disk_count,
        board.grab().poles.len() == board.poles.len(),
{
    board.lemma_grab_conserves_disks();
}

/// Where no disk rests on a smaller one before a drop, none does after it,
/// whatever disk is held and wherever the cursor is on the poles.
pub proof fn law_drop_keeps_stacking(board: BoardView, pole: int)
    requires
        0 <= board.cursor < board.poles.len(),
        forall|i: int| 0 <= i < board.poles.len() ==> stacked(#[trigger] board.poles[i]),
        0 <= pole < board.poles.len(),
    ensures
        stacked(board.drop().poles[pole]),
{
    board.lemma_drop_keeps_stacking(pole);
}

/// Where no size occurs twice among the disks of the board and each disk
/// is strictly smaller than the one it rests on, the same holds after a
/// drop, whatever disk is held and wherever the cursor is on the poles.
pub proof fn law_drop_keeps_strict_stacking(board: BoardView, pole: int)
    requires
        0 <= board.cursor < board.poles.len(),
        forall|d: nat| board.disks().count(d) <= 1,
        forall|i: int| 0 <= i < board.poles.len() ==> strictly_stacked(#[trigger] board.poles[i]),
        0 <= pole < board.poles.len(),
    ensures
        strictly_stacked(board.drop().poles[pole]),
        forall|d: nat| board.drop().disks().count(d) <= 1,
{
    broadcast use vstd::multiset::group_multiset_axioms;

    law_drop_conserves_disks(board);
    if board.can_drop() && pole == board.cursor {
        let before = board.pole();
        let disk = board.held->0;
        let after = before.push(disk);
        assert(strictly_stacked(before));
        if before.len() > 0 {
            // The held disk is not the top disk: that size would occur twice.
            let top = before.last();
            before.to_multiset_ensures();
            assert(before.contains(top));
            lemma_disks_on_includes(board.poles, board.cursor, top);
            assert(before.to_multiset().count(top) >= 1);
            assert(board.disks().count(disk) <= 1);
            assert(board.disks().count(disk) == disks_on(board.poles).count(disk) + 1);
            assert(top != disk);
        }
        assert forall|a: int, b: int| 0 <= a < b < after.len() implies after[a] > after[b] by {
            if b == before.len() && a < before.len() - 1 {
                assert(before[a] > before[before.len() - 1]);
            }
        }
    } else {
        assert(board.drop().poles[pole] == board.poles[pole]);
    }
}

/// A drop of a disk that the pole under the cursor takes, and that is not
/// the disk placed last, scores: it adds one to the count of moves and
/// records the disk as the one placed last. This holds for every count of moves.
pub proof fn law_drop_of_another_disk_scores(board: BoardView, disk: nat)
    requires
        board.held == Some(disk),
        board.pole().len() == 0 || board.pole().last() >= disk,
        board.last_dropped != Some(disk),
    ensures
        board.drop_scores(),
        board.drop().move_count == board.move_count + 1,
        board.drop().last_dropped == Some(disk),
        board.drop().held is None,
        board.drop().poles == board.poles.update(board.cursor, board.pole().push(disk)),
{
}

/// A drop of the disk that was placed last is taken where the pole takes
/// the disk, and does not score: the count of moves stays as it is.
pub proof fn law_drop_of_the_same_disk_does_not_score(board: BoardView, disk: nat)
    requires
        board.held == Some(disk),
        board.last_dropped == Some(disk),
    ensures
        !board.drop_scores(),
        board.drop().move_count == board.move_count,
        board.drop().last_dropped == Some(disk),
{
}

/// A drop changes the count of moves by one where it places a disk other
/// than the one placed last, and leaves it unchanged otherwise.
pub proof fn law_drop_counts(board: BoardView)
    ensures
        board.drop().move_count == board.move_count + if board.can_drop() && board.held
            != board.last_dropped {
            1nat
        } else {
            0nat
        },
        board.can_drop() ==> board.drop().last_dropped == board.held,
{
}

/// Lifting the disk that was just placed and placing it again, on any pole
/// that takes it, does not count as a move.
pub proof fn law_redrop_not_counted(board: BoardView, delta: int)
    requires
        board.wf(),
        board.can_drop(),
    ensures
        ({
            let placed = board.drop();
            let lifted = placed.grab();
            let moved = lifted.move_cursor(delta);
            &&& lifted.held == board.held
            &&& moved.drop().move_count == placed.move_count
        }),
{
    let placed = board.drop();
    assert(placed.pole() == board.pole().push(board.held->0));
}

/// While only one and the same disk is lifted and placed, whatever else is
/// done in between short of starting over, the count of moves stays as it is.
pub proof fn law_same_disk_not_counted(board: BoardView, ops: Seq<Op>, disk: nat)
    requires
        board.last_dropped == Some(disk),
        board.held is None || board.held == Some(disk),
        forall|i: int|
            0 <= i < ops.len() ==> !(ops[i] is Reset) && !(#[trigger] ops[i] is Grab && run(
                board,
                ops.take(i),
            ).can_grab() && run(board, ops.take(i)).pole().last() != disk),
    ensures
        run(board, ops).move_count == board.move_count,
        run(board, ops).last_dropped == Some(disk),
        run(board, ops).held is None || run(board, ops).held == Some(disk),
    decreases ops.len(),
{
    if ops.len() > 0 {
        let before = ops.drop_last();
        assert forall|i: int| 0 <= i < before.len() implies !(before[i] is Reset) && !(
        #[trigger] before[i] is Grab && run(board, before.take(i)).can_grab() && run(
            board,
            before.take(i),
        ).pole().last() != disk) by {
            assert(before.take(i) =~= ops.take(i));
            assert(before[i] == ops[i]);
        }
        law_same_disk_not_counted(board, before, disk);
        let last = ops.len() - 1;
        assert(ops.take(last) =~= before);
        assert(!(ops[last] is Reset));
        assert(!(ops[last] is Grab && run(board, ops.take(last)).can_grab() && run(
            board,
            ops.take(last),
        ).pole().last() != disk));
    }
}

/// Starting over restores the first pole to the whole tower, empties the
/// other poles, and clears the held disk and the count of moves, whatever
/// the board was before.
pub proof fn law_reset_restores_start(board: BoardView)
    requires
        board.poles.len() >= 1,
    ensures
        board.reset().poles[0] == tower(board.disk_count),
        forall|i: int| 1 <= i < board.poles.len() ==> board.reset().poles[i].len() == 0,
        board.reset().poles == start_poles(board.poles.len(), board.disk_count),
        board.reset().held is None,
        board.reset().move_count == 0,
        board.reset().last_dropped is None,
        board.reset().cursor == board.cursor,
        board.reset().disk_count == board.disk_count,
{
}

/// Starting over twice is starting over once.
pub proof fn law_reset_idempotent(board: BoardView)
    ensures
        board.reset().reset() == board.reset(),
{
    assert(board.reset().poles.len() == board.poles.len());
}

/// On a valid board no size occurs twice on a pole: each disk is strictly
/// smaller than every disk below it.
pub proof fn law_poles_strictly_stacked(board: BoardView, pole: int, lower: int, upper: int)
    requires
        board.wf(),
        0 <= pole < board.poles.len(),
        0 <= lower < upper < board.poles[pole].len(),
    ensures
        board.poles[pole][lower] > board.poles[pole][upper],
{
    broadcast use vstd::multiset::group_multiset_axioms;

    let disks = board.poles[pole];
    assert(stacked(disks));
    assert forall|d: nat| disks.to_multiset().contains(d) implies disks.to_multiset().count(d)
        == 1 by {
        lemma_disks_on_includes(board.poles, pole, d);
        lemma_all_disks_count(board.disk_count, d);
    }
    disks.lemma_multiset_has_no_duplicates_conv();
}

/// From the top of a pole down, each disk is larger than the one above it,
/// so a disk that lies `upper - lower` levels lower is larger by as much at least.
proof fn lemma_sizes_grow_downwards(board: BoardView, pole: int, lower: int, upper: int)
    requires
        board.wf(),
        0 <= pole < board.poles.len(),
        0 <= lower <= upper < board.poles[pole].len(),
    ensures
        board.poles[pole][lower] >= board.poles[pole][upper] + (upper - lower),
    decreases upper - lower,
{
    if lower < upper {
        lemma_sizes_grow_downwards(board, pole, lower + 1, upper);
        law_poles_strictly_stacked(board, pole, lower, lower + 1);
    }
}

/// A valid board is solved exactly when the whole tower stands on the last
/// pole, in order, and then the other poles are empty and no disk is held.
pub proof fn law_won_is_whole_tower(board: BoardView)
    requires
        board.wf(),
    ensures
        board.is_won() <==> board.poles.last() == tower(board.disk_count),
        board.is_won() ==> board.held is None,
        board.is_won() ==> forall|i: int|
            0 <= i < board.poles.len() - 1 ==> (#[trigger] board.poles[i]).len() == 0,
{
    broadcast use vstd::multiset::group_multiset_axioms;

    let n = board.disk_count;
    let last = board.poles.len() - 1;
    let goal = board.poles[last];
    if board.is_won() {
        // The last pole holds n sizes out of 1..=n, each larger than the one
        // above it: they are n, n - 1, .., 1.
        assert forall|level: int| 0 <= level < n implies goal[level] == n - level by {
            board.lemma_disk_in_range(last, 0);
            board.lemma_disk_in_range(last, n - 1);
            lemma_sizes_grow_downwards(board, last, 0, level);
            lemma_sizes_grow_downwards(board, last, level, n - 1);
        }
        assert(goal =~= tower(n));
        // Every size is on the last pole, so none can be anywhere else.
        assert forall|d: nat| 1 <= d <= n implies goal.to_multiset().count(d) >= 1 by {
            goal.to_multiset_ensures();
            assert(goal[n - d] == d);
            assert(goal.contains(d));
        }
        if board.held is Some {
            board.lemma_held_in_range();
            lemma_disks_on_includes(board.poles, last, board.held->0);
            lemma_all_disks_count(n, board.held->0);
        }
        assert forall|i: int| 0 <= i < last implies (#[trigger] board.poles[i]).len() == 0 by {
            if board.poles[i].len() > 0 {
                let d = board.poles[i][0];
                board.lemma_disk_in_range(i, 0);
                board.poles[i].to_multiset_ensures();
                assert(board.poles[i].contains(d));
                lemma_disks_on_includes_both(board.poles, i, last, d);
                lemma_all_disks_count(n, d);
            }
        }
    }
}

} // verus!
