//! The puzzle board as it is held in memory, and the operations of the game on it.

use crate::model::{clamp, start_poles, BoardView};
use vstd::prelude::*;

verus! {

/// The sizes of a pole's disks as natural numbers.
pub open spec fn sizes(pole: Seq<usize>) -> Seq<nat> {
    pole.map_values(|d: usize| d as nat)
}

/// The size of a disk that may be absent, as a natural number.
pub open spec fn size(disk: Option<usize>) -> Option<nat> {
    match disk {
        Some(d) => Some(d as nat),
        None => None,
    }
}

/// A puzzle board: the poles with their disks, the cursor, the held disk and
/// the count of moves.
#[derive(Debug)]
pub struct Board {
    cursor: usize,
    spots: Vec<Vec<usize>>,
    disk_count: usize,
    grabbed: Option<usize>,
    moves: usize,
    last_dropped: Option<usize>,
}

/// The poles in memory as the model has them.
spec fn poles_of(spots: Seq<Vec<usize>>) -> Seq<Seq<nat>> {
    spots.map_values(|pole: Vec<usize>| sizes(pole@))
}

/// Where one pole in memory changes and the others stay, the poles of the
/// model change in that one place.
proof fn lemma_one_pole_changed(before: Seq<Vec<usize>>, after: Seq<Vec<usize>>, at: int)
    requires
        0 <= at < before.len(),
        after.len() == before.len(),
        forall|k: int| 0 <= k < before.len() && k != at ==> after[k] == before[k],
    ensures
        poles_of(after) == poles_of(before).update(at, sizes(after[at]@)),
{
    assert(poles_of(after) =~= poles_of(before).update(at, sizes(after[at]@)));
}

impl View for Board {
    type V = BoardView;

    closed spec fn view(&self) -> BoardView {
        BoardView {
            poles: poles_of(self.spots@),
            cursor: self.cursor as int,
            held: size(self.grabbed),
            disk_count: self.disk_count as nat,
            move_count: self.moves as nat,
            last_dropped: size(self.last_dropped),
        }
    }
}

impl Board {
    /// The board is valid, as its model says.
    pub open spec fn wf(&self) -> bool {
        self@.wf()
    }

    /// The poles of a fresh puzzle.
    fn spots(num_spots: usize, num_disks: usize) -> (spots: Vec<Vec<usize>>)
        requires
            num_spots >= 1,
        ensures
            poles_of(spots@) == start_poles(num_spots as nat, num_disks as nat),
    {
        let mut first: Vec<usize> = Vec::new();
        let mut disk: usize = num_disks;
        while disk > 0
            invariant
                disk <= num_disks,
                first@.len() == num_disks - disk,
                forall|i: int| 0 <= i < first@.len() ==> first@[i] == num_disks - i,
            decreases disk,
        {
            first.push(disk);
            disk -= 1;
        }
        let mut spots: Vec<Vec<usize>> = Vec::new();
        spots.push(first);
        while spots.len() < num_spots
            invariant
                1 <= spots@.len() <= num_spots,
                spots@[0]@.len() == num_disks,
                forall|i: int| 0 <= i < num_disks ==> spots@[0]@[i] == num_disks - i,
                forall|k: int| 1 <= k < spots@.len() ==> (#[trigger] spots@[k])@.len() == 0,
            decreases num_spots - spots.len(),
        {
            spots.push(Vec::new());
        }
        proof {
            let got = poles_of(spots@);
            let want = start_poles(num_spots as nat, num_disks as nat);
            assert forall|k: int| 0 <= k < got.len() implies got[k] =~= want[k] by {
                if k != 0 {
                    assert(spots@[k]@.len() == 0);
                }
            }
            assert(got =~= want);
        }
        spots
    }

    /// A fresh puzzle: all disks on the first pole, largest at the bottom,
    /// the cursor on the first pole, nothing held and no move counted.
    pub fn new(num_spots: usize, num_disks: usize) -> (board: Board)
        requires
            num_spots >= 1,
        ensures
            board.wf(),
            board@ == BoardView::initial(num_spots as nat, num_disks as nat),
    {
        proof {
            BoardView::lemma_initial_wf(num_spots as nat, num_disks as nat);
        }
        Board {
            cursor: 0,
            spots: Self::spots(num_spots, num_disks),
            disk_count: num_disks,
            grabbed: None,
            moves: 0,
            last_dropped: None,
        }
    }

    /// Moves the cursor by `dir` poles. It stops at the first and at the last
    /// pole, however large the distance.
    pub fn move_cursor(&mut self, dir: i8)
        requires
            old(self).wf(),
        ensures
            final(self).wf(),
            final(self)@ == old(self)@.move_cursor(dir as int),
            final(self)@.cursor == clamp(
                old(self)@.cursor + dir,
                0,
                old(self)@.poles.len() - 1,
            ),
    {
        proof {
            self@.lemma_move_cursor_wf(dir as int);
        }
        let last: usize = self.spots.len() - 1;
        if dir < 0 {
            let wide: i16 = dir as i16;
            let back: usize = (-wide) as usize;
            if back > self.cursor {
                self.cursor = 0;
            } else {
                self.cursor = self.cursor - back;
            }
        } else {
            let ahead: usize = dir as usize;
            if ahead > last - self.cursor {
                self.cursor = last;
            } else {
                self.cursor = self.cursor + ahead;
            }
        }
    }

    /// Lifts the top disk of the pole under the cursor, unless a disk is held
    /// already or the pole is empty. Says whether a disk was lifted.
    pub fn grab(&mut self) -> (lifted: bool)
        requires
            old(self).wf(),
        ensures
            final(self).wf(),
            final(self)@ == old(self)@.grab(),
            lifted == old(self)@.can_grab(),
    {
        proof {
            self@.lemma_grab_wf();
        }
        if self.grabbed.is_some() {
            return false;
        }
        let ghost before = self.spots@;
        let at: usize = self.cursor;
        let top = self.spots[at].pop();
        match top {
            Some(disk) => {
                self.grabbed = Some(disk);
                proof {
                    lemma_one_pole_changed(before, self.spots@, at as int);
                    assert(sizes(self.spots@[at as int]@) =~= old(self)@.pole().drop_last());
                }
                true
            },
            None => {
                proof {
                    lemma_one_pole_changed(before, self.spots@, at as int);
                    assert(sizes(self.spots@[at as int]@) =~= old(self)@.pole());
                    assert(self@.poles =~= old(self)@.poles);
                }
                false
            },
        }
    }

    /// Places the held disk on the pole under the cursor, unless none is held
    /// or the pole's top disk is smaller. Says whether the move was scored: a
    /// placed disk scores unless it is the disk that was placed last.
    pub fn drop(&mut self) -> (scored: bool)
        requires
            old(self).wf(),
            old(self)@.drop_scores() ==> old(self)@.move_count < usize::MAX,
        ensures
            final(self).wf(),
            final(self)@ == old(self)@.drop(),
            scored == old(self)@.drop_scores(),
    {
        proof {
            self@.lemma_drop_wf();
        }
        let disk: usize = match self.grabbed {
            Some(disk) => disk,
            None => {
                return false;
            },
        };
        let ghost before = self.spots@;
        let at: usize = self.cursor;
        let height: usize = self.spots[at].len();
        if height > 0 && self.spots[at][height - 1] < disk {
            return false;
        }
        let counts: bool = match self.last_dropped {
            Some(last) => last != disk,
            None => true,
        };
        self.spots[at].push(disk);
        self.grabbed = None;
        self.last_dropped = Some(disk);
        if counts {
            self.moves += 1;
        }
        proof {
            lemma_one_pole_changed(before, self.spots@, at as int);
            assert(sizes(self.spots@[at as int]@) =~= old(self)@.pole().push(disk as nat));
        }
        counts
    }

    /// Starts the puzzle over: the disks go back to the first pole, the held
    /// disk and the count of moves are cleared. The cursor stays.
    pub fn reset(&mut self)
        requires
            old(self).wf(),
        ensures
            final(self).wf(),
            final(self)@ == old(self)@.reset(),
    {
        proof {
            self@.lemma_reset_wf();
        }
        self.spots = Self::spots(self.spots.len(), self.disk_count);
        self.grabbed = None;
        self.moves = 0;
        self.last_dropped = None;
    }

    /// The counts of a board in memory are numbers that the machine can hold.
    pub proof fn lemma_counts_fit(&self)
        ensures
            self@.disk_count <= usize::MAX,
            self@.move_count <= usize::MAX,
    {
    }

    /// Whether placing the held disk now would score a move.
    pub fn drop_scores(&self) -> (scores: bool)
        requires
            self.wf(),
        ensures
            scores == self@.drop_scores(),
    {
        match self.grabbed {
            Some(disk) => {
                let height: usize = self.spots[self.cursor].len();
                let fits: bool = height == 0 || self.spots[self.cursor][height - 1] >= disk;
                let again: bool = match self.last_dropped {
                    Some(last) => last == disk,
                    None => false,
                };
                fits && !again
            },
            None => false,
        }
    }

    /// The number of poles.
    pub fn pole_count(&self) -> (count: usize)
        ensures
            count == self@.poles.len(),
    {
        self.spots.len()
    }

    /// The number of disks in play.
    pub fn disk_count(&self) -> (count: usize)
        ensures
            count == self@.disk_count,
    {
        self.disk_count
    }

    /// The index of the pole under the cursor.
    pub fn cursor(&self) -> (index: usize)
        ensures
            index == self@.cursor,
    {
        self.cursor
    }

    /// The held disk, if one is held.
    pub fn held(&self) -> (disk: Option<usize>)
        ensures
            size(disk) == self@.held,
    {
        self.grabbed
    }

    /// The number of moves scored so far.
    pub fn move_count(&self) -> (count: usize)
        ensures
            count == self@.move_count,
    {
        self.moves
    }

    /// The disk that was placed last, if any was placed since the start.
    pub fn last_dropped(&self) -> (disk: Option<usize>)
        ensures
            size(disk) == self@.last_dropped,
    {
        self.last_dropped
    }

    /// The disks of one pole, from the bottom up.
    pub fn pole(&self, index: usize) -> (pole: &Vec<usize>)
        requires
            index < self@.poles.len(),
        ensures
            sizes(pole@) == self@.poles[index as int],
    {
        &self.spots[index]
    }

    /// Whether the puzzle is solved: the last pole holds all the disks in play.
    pub fn is_won(&self) -> (won: bool)
        requires
            self.wf(),
        ensures
            won == self@.is_won(),
    {
        let last: usize = self.spots.len() - 1;
        self.spots[last].len() == self.disk_count
    }
}

} // verus!
