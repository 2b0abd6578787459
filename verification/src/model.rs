//! The mathematical model of the puzzle: what a board is, which boards are
//! valid, and what each operation does to one.

use vstd::multiset::{lemma_multiset_empty_len, Multiset};
use vstd::prelude::*;
use vstd::seq_lib::{lemma_multiset_commutative, to_multiset_build, to_multiset_len};

verus! {

/// The disks `n, n - 1, .., 1` as they stand on a pole, largest at the bottom.
pub open spec fn tower(n: nat) -> Seq<nat> {
    Seq::new(n, |i: int| (n - i) as nat)
}

/// The poles of a fresh puzzle: the whole tower on the first pole, the others empty.
pub open spec fn start_poles(pole_count: nat, disk_count: nat) -> Seq<Seq<nat>> {
    Seq::new(
        pole_count,
        |i: int|
            if i == 0 {
                tower(disk_count)
            } else {
                Seq::empty()
            },
    )
}

/// The multiset that holds each of the sizes `1..=n` exactly once.
pub open spec fn all_disks(n: nat) -> Multiset<nat>
    decreases n,
{
    if n == 0 {
        Multiset::empty()
    } else {
        all_disks((n - 1) as nat).insert(n)
    }
}

/// The disks that rest on the given poles, as a multiset.
pub open spec fn disks_on(poles: Seq<Seq<nat>>) -> Multiset<nat>
    decreases poles.len(),
{
    if poles.len() == 0 {
        Multiset::empty()
    } else {
        disks_on(poles.drop_last()).add(poles.last().to_multiset())
    }
}

/// No disk of the pole rests on a smaller one. A pole is read bottom first.
pub open spec fn stacked(pole: Seq<nat>) -> bool {
    forall|i: int, j: int| 0 <= i < j < pole.len() ==> pole[i] >= pole[j]
}

/// `x` moved into the range `lo..=hi`.
pub open spec fn clamp(x: int, lo: int, hi: int) -> int {
    if x < lo {
        lo
    } else if x > hi {
        hi
    } else {
        x
    }
}

/// The state of a puzzle.
pub struct BoardView {
    /// The poles from left to right, each from its bottom disk to its top disk.
    pub poles: Seq<Seq<nat>>,
    /// The index of the pole under the cursor.
    pub cursor: int,
    /// The disk that is lifted off the poles, if any.
    pub held: Option<nat>,
    /// The number of disks in play.
    pub disk_count: nat,
    /// The number of moves scored so far.
    pub move_count: nat,
    /// The disk that was placed last, if any was placed since the start.
    pub last_dropped: Option<nat>,
}

impl BoardView {
    /// The state in which a puzzle starts.
    pub open spec fn initial(pole_count: nat, disk_count: nat) -> BoardView {
        BoardView {
            poles: start_poles(pole_count, disk_count),
            cursor: 0,
            held: None,
            disk_count,
            move_count: 0,
            last_dropped: None,
        }
    }

    /// All disks of the board: those on the poles and the held one.
    pub open spec fn disks(self) -> Multiset<nat> {
        match self.held {
            Some(d) => disks_on(self.poles).insert(d),
            None => disks_on(self.poles),
        }
    }

    /// The board is valid: the cursor is on a pole, the disks in play are
    /// exactly `1..=disk_count`, and no disk rests on a smaller one.
    pub open spec fn wf(self) -> bool {
        &&& 0 <= self.cursor < self.poles.len()
        &&& self.disks() == all_disks(self.disk_count)
        &&& forall|i: int| 0 <= i < self.poles.len() ==> stacked(#[trigger] self.poles[i])
    }

    /// The pole under the cursor.
    pub open spec fn pole(self) -> Seq<nat> {
        self.poles[self.cursor]
    }

    /// The board with the pole under the cursor replaced.
    pub open spec fn with_pole(self, pole: Seq<nat>) -> Seq<Seq<nat>> {
        self.poles.update(self.cursor, pole)
    }

    /// The cursor moved by `delta` poles, stopping at the first and the last pole.
    pub open spec fn move_cursor(self, delta: int) -> BoardView {
        BoardView { cursor: clamp(self.cursor + delta, 0, self.poles.len() - 1), ..self }
    }

    /// A disk can be lifted: none is held and the pole under the cursor has one.
    pub open spec fn can_grab(self) -> bool {
        self.held is None && self.pole().len() > 0
    }

    /// The top disk of the pole under the cursor lifted, where that can be done.
    pub open spec fn grab(self) -> BoardView {
        if self.can_grab() {
            BoardView {
                poles: self.with_pole(self.pole().drop_last()),
                held: Some(self.pole().last()),
                ..self
            }
        } else {
            self
        }
    }

    /// The held disk can be placed: one is held, and the pole under the cursor
    /// is empty or its top disk is not smaller.
    pub open spec fn can_drop(self) -> bool {
        self.held matches Some(d) && (self.pole().len() == 0 || self.pole().last() >= d)
    }

    /// Placing the held disk now would score a move: it can be placed and is
    /// not the disk that was placed last.
    pub open spec fn drop_scores(self) -> bool {
        self.can_drop() && self.last_dropped != self.held
    }

    /// The held disk placed on the pole under the cursor, where that can be done.
    pub open spec fn drop(self) -> BoardView {
        if self.can_drop() {
            BoardView {
                poles: self.with_pole(self.pole().push(self.held->0)),
                held: None,
                move_count: if self.drop_scores() {
                    self.move_count + 1
                } else {
                    self.move_count
                },
                last_dropped: self.held,
                ..self
            }
        } else {
            self
        }
    }

    /// The puzzle started over on the same poles with the same disks. The
    /// cursor stays where it is.
    pub open spec fn reset(self) -> BoardView {
        BoardView {
            poles: start_poles(self.poles.len(), self.disk_count),
            held: None,
            move_count: 0,
            last_dropped: None,
            ..self
        }
    }

    /// The puzzle is solved: the last pole holds as many disks as are in play.
    pub open spec fn is_won(self) -> bool {
        self.poles.last().len() == self.disk_count
    }
}

/// Each size in `1..=n` occurs once in `all_disks(n)`, and no other size occurs.
pub proof fn lemma_all_disks_count(n: nat, d: nat)
    ensures
        all_disks(n).count(d) == if 1 <= d <= n {
            1nat
        } else {
            0nat
        },
    decreases n,
{
    if n > 0 {
        lemma_all_disks_count((n - 1) as nat, d);
    }
}

/// Each size in `1..=n` occurs once in the tower of `n` disks, and no other size occurs.
proof fn lemma_tower_count(n: nat, d: nat)
    ensures
        tower(n).to_multiset().count(d) == if 1 <= d <= n {
            1nat
        } else {
            0nat
        },
    decreases n,
{
    if n == 0 {
        assert(tower(0) =~= Seq::<nat>::empty());
        lemma_empty_pole();
    } else {
        // The tower of n disks is disk n under the tower of n - 1 disks.
        let below = (n - 1) as nat;
        let bottom = Seq::<nat>::empty().push(n);
        assert(tower(n) =~= bottom + tower(below));
        lemma_multiset_commutative(bottom, tower(below));
        to_multiset_build(Seq::<nat>::empty(), n);
        lemma_empty_pole();
        lemma_tower_count(below, d);
    }
}

/// The tower of `n` disks holds exactly the disks `1..=n`, and is stacked in order.
pub proof fn lemma_tower_disks(n: nat)
    ensures
        tower(n).to_multiset() =~= all_disks(n),
        stacked(tower(n)),
{
    assert forall|d: nat| tower(n).to_multiset().count(d) == all_disks(n).count(d) by {
        lemma_all_disks_count(n, d);
        lemma_tower_count(n, d);
    }
}

/// A pole without disks holds no disks.
proof fn lemma_empty_pole()
    ensures
        Seq::<nat>::empty().to_multiset() =~= Multiset::empty(),
{
    let bare = Seq::<nat>::empty();
    to_multiset_len(bare);
    lemma_multiset_empty_len(bare.to_multiset());
}

/// Replacing one pole changes the disks on the poles by the difference between
/// the old pole and the new one.
pub proof fn lemma_disks_on_update(poles: Seq<Seq<nat>>, i: int, pole: Seq<nat>)
    requires
        0 <= i < poles.len(),
    ensures
        disks_on(poles.update(i, pole)).add(poles[i].to_multiset()) =~= disks_on(poles).add(
            pole.to_multiset(),
        ),
    decreases poles.len(),
{
    broadcast use vstd::multiset::group_multiset_axioms;

    let last = poles.len() - 1;
    let updated = poles.update(i, pole);
    assert(disks_on(updated) == disks_on(updated.drop_last()).add(updated.last().to_multiset()));
    assert(disks_on(poles) == disks_on(poles.drop_last()).add(poles.last().to_multiset()));
    if i == last {
        assert(updated.drop_last() =~= poles.drop_last());
    } else {
        let rest = poles.drop_last();
        assert(updated.drop_last() =~= rest.update(i, pole));
        lemma_disks_on_update(rest, i, pole);
        // The last pole is on both sides; what the shorter row says of each
        // size carries over.
        let before = disks_on(rest.update(i, pole)).add(rest[i].to_multiset());
        let after = disks_on(rest).add(pole.to_multiset());
        assert forall|d: nat|
            disks_on(updated).add(poles[i].to_multiset()).count(d) == disks_on(poles).add(
                pole.to_multiset(),
            ).count(d) by {
            assert(before.count(d) == after.count(d));
        }
    }
}

/// Poles without disks hold no disks.
proof fn lemma_disks_on_empty(poles: Seq<Seq<nat>>)
    requires
        forall|i: int| 0 <= i < poles.len() ==> (#[trigger] poles[i]).len() == 0,
    ensures
        disks_on(poles) =~= Multiset::empty(),
    decreases poles.len(),
{
    if poles.len() > 0 {
        lemma_disks_on_empty(poles.drop_last());
        assert(poles.last() =~= Seq::<nat>::empty());
        lemma_empty_pole();
    }
}

/// The poles of a fresh puzzle hold exactly the disks `1..=disk_count`, in order.
pub proof fn lemma_start_poles(pole_count: nat, disk_count: nat)
    requires
        pole_count >= 1,
    ensures
        disks_on(start_poles(pole_count, disk_count)) =~= all_disks(disk_count),
        forall|i: int|
            0 <= i < pole_count ==> stacked(#[trigger] start_poles(pole_count, disk_count)[i]),
{
    broadcast use vstd::multiset::group_multiset_axioms;

    let poles = start_poles(pole_count, disk_count);
    let bare = Seq::new(pole_count, |i: int| Seq::<nat>::empty());
    lemma_disks_on_empty(bare);
    assert(bare.update(0, tower(disk_count)) =~= poles);
    lemma_disks_on_update(bare, 0, tower(disk_count));
    lemma_tower_disks(disk_count);
    lemma_empty_pole();
    assert(bare[0] =~= Seq::<nat>::empty());
    let before = disks_on(poles).add(bare[0].to_multiset());
    let after = disks_on(bare).add(tower(disk_count).to_multiset());
    assert forall|d: nat| disks_on(poles).count(d) == all_disks(disk_count).count(d) by {
        assert(before.count(d) == after.count(d));
    }
}

impl BoardView {
    /// A puzzle with at least one pole starts in a valid state.
    pub proof fn lemma_initial_wf(pole_count: nat, disk_count: nat)
        requires
            pole_count >= 1,
        ensures
            BoardView::initial(pole_count, disk_count).wf(),
    {
        lemma_start_poles(pole_count, disk_count);
    }

    /// Moving the cursor keeps the board valid, whatever the distance.
    pub proof fn lemma_move_cursor_wf(self, delta: int)
        requires
            self.wf(),
        ensures
            self.move_cursor(delta).wf(),
    {
    }

    /// A grab, whether it lifts a disk or not, leaves the disks of the board
    /// as they are: those on the poles together with the held one.
    pub proof fn lemma_grab_conserves_disks(self)
        requires
            0 <= self.cursor < self.poles.len(),
        ensures
            self.grab().disks() == self.disks(),
    {
        broadcast use vstd::multiset::group_multiset_axioms;

        if self.can_grab() {
            let rest = self.pole().drop_last();
            let disk = self.pole().last();
            assert(self.pole() =~= rest.push(disk));
            to_multiset_build(rest, disk);
            lemma_disks_on_update(self.poles, self.cursor, rest);
            let lhs = disks_on(self.grab().poles).add(self.pole().to_multiset());
            let rhs = disks_on(self.poles).add(rest.to_multiset());
            assert forall|d: nat| self.grab().disks().count(d) == self.disks().count(d) by {
                assert(lhs.count(d) == rhs.count(d));
            }
            assert(self.grab().disks() =~= self.disks());
        }
    }

    /// A drop, whether it places the held disk, is refused or finds no disk
    /// held, leaves the disks of the board as they are: those on the poles
    /// together with the held one.
    pub proof fn lemma_drop_conserves_disks(self)
        requires
            0 <= self.cursor < self.poles.len(),
        ensures
            self.drop().disks() == self.disks(),
    {
        broadcast use vstd::multiset::group_multiset_axioms;

        if self.can_drop() {
            let disk = self.held->0;
            let grown = self.pole().push(disk);
            to_multiset_build(self.pole(), disk);
            lemma_disks_on_update(self.poles, self.cursor, grown);
            let lhs = disks_on(self.drop().poles).add(self.pole().to_multiset());
            let rhs = disks_on(self.poles).add(grown.to_multiset());
            assert forall|d: nat| self.drop().disks().count(d) == self.disks().count(d) by {
                assert(lhs.count(d) == rhs.count(d));
            }
            assert(self.drop().disks() =~= self.disks());
        }
    }

    /// Where no disk rests on a smaller one before a drop, none does after
    /// it: the held disk goes onto a pole only where the top disk is not smaller.
    pub proof fn lemma_drop_keeps_stacking(self, pole: int)
        requires
            0 <= self.cursor < self.poles.len(),
            forall|i: int| 0 <= i < self.poles.len() ==> stacked(#[trigger] self.poles[i]),
            0 <= pole < self.poles.len(),
        ensures
            stacked(self.drop().poles[pole]),
    {
        if self.can_drop() && pole == self.cursor {
            let before = self.pole();
            let after = before.push(self.held->0);
            assert(stacked(before));
            assert forall|a: int, b: int| 0 <= a < b < after.len() implies after[a] >= after[b] by {
                if b == before.len() && a < before.len() - 1 {
                    assert(before[a] >= before[before.len() - 1]);
                }
            }
        } else {
            assert(self.drop().poles[pole] == self.poles[pole]);
        }
    }

    /// Lifting a disk keeps the board valid.
    pub proof fn lemma_grab_wf(self)
        requires
            self.wf(),
        ensures
            self.grab().wf(),
    {
        self.lemma_grab_conserves_disks();
        let after = self.grab();
        assert forall|i: int| 0 <= i < after.poles.len() implies stacked(
            #[trigger] after.poles[i],
        ) by {
            assert(stacked(self.poles[i]));
        }
    }

    /// Placing the held disk keeps the board valid.
    pub proof fn lemma_drop_wf(self)
        requires
            self.wf(),
        ensures
            self.drop().wf(),
    {
        self.lemma_drop_conserves_disks();
        let after = self.drop();
        assert forall|i: int| 0 <= i < after.poles.len() implies stacked(
            #[trigger] after.poles[i],
        ) by {
            self.lemma_drop_keeps_stacking(i);
        }
    }

    /// Starting over gives a valid board, whatever the board was.
    pub proof fn lemma_reset_wf(self)
        requires
            0 <= self.cursor < self.poles.len(),
        ensures
            self.reset().wf(),
    {
        lemma_start_poles(self.poles.len(), self.disk_count);
    }
}

/// Every disk of a pole is among the disks on the poles.
pub proof fn lemma_disks_on_includes(poles: Seq<Seq<nat>>, i: int, d: nat)
    requires
        0 <= i < poles.len(),
    ensures
        disks_on(poles).count(d) >= poles[i].to_multiset().count(d),
    decreases poles.len(),
{
    broadcast use vstd::multiset::group_multiset_axioms;

    if i < poles.len() - 1 {
        lemma_disks_on_includes(poles.drop_last(), i, d);
    }
}

/// The disks of two poles are all among the disks on the poles.
pub proof fn lemma_disks_on_includes_both(poles: Seq<Seq<nat>>, i: int, k: int, d: nat)
    requires
        0 <= i < k < poles.len(),
    ensures
        disks_on(poles).count(d) >= poles[i].to_multiset().count(d) + poles[k].to_multiset().count(
            d,
        ),
    decreases poles.len(),
{
    broadcast use vstd::multiset::group_multiset_axioms;

    if k < poles.len() - 1 {
        lemma_disks_on_includes_both(poles.drop_last(), i, k, d);
    } else {
        lemma_disks_on_includes(poles.drop_last(), i, d);
    }
}

impl BoardView {
    /// On a valid board every disk on a pole has a size in `1..=disk_count`.
    pub proof fn lemma_disk_in_range(self, pole: int, level: int)
        requires
            self.wf(),
            0 <= pole < self.poles.len(),
            0 <= level < self.poles[pole].len(),
        ensures
            1 <= self.poles[pole][level] <= self.disk_count,
    {
        broadcast use vstd::multiset::group_multiset_axioms;

        let d = self.poles[pole][level];
        self.poles[pole].to_multiset_ensures();
        assert(self.poles[pole].contains(d));
        lemma_disks_on_includes(self.poles, pole, d);
        lemma_all_disks_count(self.disk_count, d);
    }

    /// On a valid board the held disk has a size in `1..=disk_count`.
    pub proof fn lemma_held_in_range(self)
        requires
            self.wf(),
            self.held is Some,
        ensures
            1 <= self.held->0 <= self.disk_count,
    {
        broadcast use vstd::multiset::group_multiset_axioms;

        lemma_all_disks_count(self.disk_count, self.held->0);
    }
}

} // verus!
