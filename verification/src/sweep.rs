//! Schedule of the multi-shift bulge-chasing sweep.
//!
//! A sweep chases `nbmps` bulges, one for each pair of shifts, through the
//! window `ktop..=kbot` of an upper Hessenberg matrix. Bulge `m` sits in the
//! rows `k + 1..=k + 3` with `k = krcol + 2 (m - 1)`, where `krcol` is the
//! column the sweep has reached. The columns are worked off in blocks of
//! `2 nbmps`; within a block the reflections may be gathered in a matrix of
//! order `kdu = 4 nbmps` that is multiplied into the rest afterwards.
//!
//! This module computes every index of that schedule and proves that the
//! bulges stay inside the window, that the gathered reflections stay inside
//! the matrix of order `kdu`, and that each bulge is taken through every row
//! of the window. The reflections themselves are rounded arithmetic and are
//! left to the caller.

use crate::array::{FortranArray, Grid};
use crate::ieee;
use vstd::prelude::*;

verus! {

/// The fixed parameters of one sweep.
#[derive(Clone, Copy, Debug)]
pub struct Sweep {
    /// Whether the full quasi-triangular form is wanted.
    pub wantt: bool,
    /// Whether the transformations are applied to the accumulator matrix.
    pub wantz: bool,
    /// Whether the reflections of a block are gathered before they are
    /// applied to the rest.
    pub accum: bool,
    /// Order of the matrix.
    pub n: i32,
    /// First row of the window.
    pub ktop: i32,
    /// Last row of the window.
    pub kbot: i32,
    /// Number of bulges.
    pub nbmps: i32,
}

/// The matrix that takes the reflections of a block from the right, besides
/// the Hessenberg matrix itself.
#[derive(Clone, Copy, Debug, PartialEq, Eq, Structural)]
pub enum Target {
    /// The matrix that gathers the reflections of the block.
    Gathered,
    /// The accumulator matrix.
    Accumulator,
    /// None.
    Neither,
}

/// One block of columns.
#[derive(Clone, Copy, Debug, PartialEq, Eq, Structural)]
pub struct Block {
    /// Column before the first one of the block.
    pub incol: i32,
    /// Last value of `krcol` in the block.
    pub last: i32,
    /// First row that reflections from the right reach.
    pub jtop: i32,
    /// Column after the last one that the gathered reflections touch.
    pub ndcol: i32,
    /// First row and column used of the gathered matrix.
    pub k1: i32,
    /// Number of rows and columns used of the gathered matrix.
    pub nu: i32,
    /// First row of the matrix that the gathered reflections have changed.
    pub first_row: i32,
    /// First and last column of the part right of the block that the
    /// gathered reflections are multiplied into.
    pub right_from: i32,
    pub right_to: i32,
    /// First and last row of the part above the block that the gathered
    /// reflections are multiplied into.
    pub above_from: i32,
    pub above_to: i32,
    /// Whether the reflections of the block are gathered, and multiplied
    /// into the rest of the Hessenberg matrix when the block is done.
    pub gathers: bool,
    /// Whether the gathered reflections are multiplied into the accumulator
    /// matrix as well.
    pub into_z: bool,
}

/// One bulge at one column of the sweep: where it sits and what its
/// reflection reaches.
#[derive(Clone, Copy, Debug, PartialEq, Eq, Structural)]
pub struct Bulge {
    /// Number of the bulge; its reflector is column `m` of the reflector
    /// matrix.
    pub m: i32,
    /// Number of the first of its two shifts.
    pub first_shift: i32,
    /// Row above the bulge: the bulge fills the rows `k + 1..=k + order`.
    pub k: i32,
    /// Order of the bulge, 3 or 2.
    pub order: i32,
    /// Whether the bulge is introduced here from its shifts; else it is
    /// moved down from the row above.
    pub fresh: bool,
    /// Whether the entry `(k + 1, k)` is tested for being negligible.
    pub vigilant: bool,
    /// Last row that the reflection reaches from the right; the first is the
    /// `jtop` of the block.
    pub right_last: i32,
    /// First column that the rest of the reflection from the left reaches;
    /// the last is the `jbot` of the column.
    pub left_first: i32,
    /// The matrix that takes the reflection besides the Hessenberg matrix:
    /// the gathered matrix in its rows `gather_first..=gather_last` and
    /// behind its column `kms`, or the accumulator matrix behind its column
    /// `k`, or none.
    pub target: Target,
    /// Column before the bulge in the gathered matrix.
    pub kms: i32,
    /// First and last row of the gathered matrix that the reflection
    /// changes.
    pub gather_first: i32,
    pub gather_last: i32,
}

/// The bulges that are active when the sweep has reached one column.
#[derive(Clone, Copy, Debug, PartialEq, Eq, Structural)]
pub struct Column {
    /// First active bulge of order three.
    pub mtop: i32,
    /// Last active bulge of order three.
    pub mbot: i32,
    /// The bulge after `mbot`.
    pub m22: i32,
    /// Whether bulge `m22` is active as a bulge of order two at the bottom
    /// of the window.
    pub bmp22: bool,
    /// Last column that reflections from the left reach.
    pub jbot: i32,
}

/// The larger of two integers.
pub open spec fn larger(a: int, b: int) -> int {
    if a >= b {
        a
    } else {
        b
    }
}

/// The smaller of two integers.
pub open spec fn smaller(a: int, b: int) -> int {
    if a <= b {
        a
    } else {
        b
    }
}

/// The row above bulge `m` when the sweep has reached column `krcol`.
pub open spec fn bulge_row_spec(krcol: int, m: int) -> int {
    krcol + 2 * (m - 1)
}

impl Sweep {
    /// The bounds that every plan meets.
    pub open spec fn inv(self) -> bool {
        &&& 1 <= self.ktop < self.kbot
        &&& 1 <= self.nbmps
        &&& self.kbot + 4 * self.nbmps <= i32::MAX
    }

    /// The matrix that takes the reflections besides the Hessenberg matrix.
    /// Without a wish for accumulated transformations it is never the
    /// accumulator matrix.
    pub open spec fn target(self) -> Target {
        if self.accum {
            Target::Gathered
        } else if self.wantz {
            Target::Accumulator
        } else {
            Target::Neither
        }
    }

    /// Order of the matrix that gathers the reflections of a block.
    pub open spec fn kdu(self) -> int {
        4 * self.nbmps
    }

    /// The first column of the schedule.
    pub open spec fn first_col(self) -> int {
        self.ktop - 2 * self.nbmps + 1
    }

    /// The last column of the schedule.
    pub open spec fn last_col(self) -> int {
        self.kbot - 2
    }

    /// The parameters of a sweep with `nshfts` shifts, if there is anything
    /// to do.
    pub open spec fn plan_spec(
        wantt: bool,
        wantz: bool,
        kacc22: i32,
        n: i32,
        ktop: i32,
        kbot: i32,
        nshfts: i32,
    ) -> Option<Sweep> {
        if nshfts < 2 || ktop >= kbot {
            None
        } else {
            Some(
                Sweep {
                    wantt,
                    wantz,
                    accum: kacc22 == 1 || kacc22 == 2,
                    n,
                    ktop,
                    kbot,
                    nbmps: (nshfts / 2) as i32,
                },
            )
        }
    }

    /// First active bulge of order three at column `krcol`.
    pub open spec fn mtop(self, krcol: int) -> int {
        if self.ktop > krcol {
            (self.ktop - krcol) / 2 + 1
        } else {
            1
        }
    }

    /// Last active bulge of order three at column `krcol`.
    pub open spec fn mbot(self, krcol: int) -> int {
        smaller(self.nbmps as int, (self.kbot - krcol - 1) / 2)
    }

    /// Whether a bulge of order two is active at the bottom of the window.
    pub open spec fn has_small_bulge(self, krcol: int) -> bool {
        self.mbot(krcol) < self.nbmps && bulge_row_spec(krcol, self.mbot(krcol) + 1) == self.kbot
            - 2
    }

    /// Whether `incol` starts a block: it is a column of the schedule, a
    /// whole number of blocks after the first.
    pub open spec fn starts_block(self, incol: int) -> bool {
        &&& self.first_col() <= incol <= self.last_col()
        &&& exists|t: int| 0 <= t && incol == #[trigger] self.block_start(t)
    }

    /// The column that starts block number `t`, counted from zero.
    pub open spec fn block_start(self, t: int) -> int {
        self.first_col() + t * (2 * self.nbmps)
    }

    /// The block that starts at `incol`.
    pub open spec fn block_spec(self, incol: int) -> Block {
        let ndcol = incol + self.kdu();
        let k1 = larger(1, self.ktop - incol);
        Block {
            incol: incol as i32,
            last: smaller(incol + 2 * self.nbmps - 1, self.last_col()) as i32,
            jtop: if self.accum {
                larger(self.ktop as int, incol) as i32
            } else if self.wantt {
                1
            } else {
                self.ktop
            },
            ndcol: ndcol as i32,
            k1: k1 as i32,
            nu: (self.kdu() - larger(0, ndcol - self.kbot) - k1 + 1) as i32,
            first_row: (incol + k1) as i32,
            right_from: (smaller(ndcol, self.kbot as int) + 1) as i32,
            right_to: if self.wantt {
                self.n
            } else {
                self.kbot
            },
            above_from: if self.wantt {
                1
            } else {
                self.ktop
            },
            above_to: (larger(self.ktop as int, incol) - 1) as i32,
            gathers: self.accum,
            into_z: self.accum && self.wantz,
        }
    }

    /// Bulge `m` of order three at column `krcol` of the block that starts
    /// at `incol`.
    pub open spec fn bulge_spec(self, incol: int, krcol: int, m: int) -> Bulge {
        let k = bulge_row_spec(krcol, m);
        Bulge {
            m: m as i32,
            first_shift: (2 * m - 1) as i32,
            k: k as i32,
            order: 3,
            fresh: k == self.ktop - 1,
            vigilant: k >= self.ktop,
            right_last: smaller(self.kbot as int, k + 3) as i32,
            left_first: larger(self.ktop as int, krcol + 2 * m) as i32,
            target: self.target(),
            kms: (k - incol) as i32,
            gather_first: self.gather_rows_spec(incol, krcol, m).0 as i32,
            gather_last: self.gather_rows_spec(incol, krcol, m).1 as i32,
        }
    }

    /// The bulge of order two at column `krcol` of the block that starts at
    /// `incol`.
    pub open spec fn small_bulge_spec(self, incol: int, krcol: int) -> Bulge {
        let m = self.mbot(krcol) + 1;
        let k = bulge_row_spec(krcol, m);
        Bulge {
            m: m as i32,
            first_shift: (2 * m - 1) as i32,
            k: k as i32,
            order: 2,
            fresh: k == self.ktop - 1,
            vigilant: k >= self.ktop,
            right_last: smaller(self.kbot as int, k + 3) as i32,
            left_first: (k + 1) as i32,
            target: self.target(),
            kms: (k - incol) as i32,
            gather_first: larger(1, self.ktop - incol) as i32,
            gather_last: self.kdu() as i32,
        }
    }

    /// The active bulges at column `krcol` of the block that starts at
    /// `incol`.
    pub open spec fn column_spec(self, incol: int, krcol: int) -> Column {
        Column {
            mtop: self.mtop(krcol) as i32,
            mbot: self.mbot(krcol) as i32,
            m22: (self.mbot(krcol) + 1) as i32,
            bmp22: self.has_small_bulge(krcol),
            jbot: if self.accum {
                smaller(incol + self.kdu(), self.kbot as int) as i32
            } else if self.wantt {
                self.n
            } else {
                self.kbot
            },
        }
    }

    /// Rows of the gathered matrix that the reflection of bulge `m` changes
    /// at column `krcol` of the block that starts at `incol`: from the first
    /// to the second component.
    pub open spec fn gather_rows_spec(self, incol: int, krcol: int, m: int) -> (int, int) {
        let kms = bulge_row_spec(krcol, m) - incol;
        (
            larger(1, larger(self.ktop - incol, kms - (krcol - incol) + 1)),
            smaller(self.kdu(), krcol + 2 * (self.mbot(krcol) - 1) - incol + 5),
        )
    }

    /// Plans a sweep with `nshfts` shifts on the window `ktop..=kbot`.
    /// There is nothing to do with fewer than two shifts or a window of a
    /// single row. A shift without a partner is left out.
    pub fn plan(
        wantt: bool,
        wantz: bool,
        kacc22: i32,
        n: i32,
        ktop: i32,
        kbot: i32,
        nshfts: i32,
    ) -> (r: Option<Sweep>)
        requires
            nshfts >= 2 && ktop < kbot ==> 1 <= ktop && kbot + 2 * nshfts <= i32::MAX,
        ensures
            r == Sweep::plan_spec(wantt, wantz, kacc22, n, ktop, kbot, nshfts),
            r matches Some(s) ==> s.inv(),
    {
        if nshfts < 2 || ktop >= kbot {
            None
        } else {
            Some(
                Sweep {
                    wantt,
                    wantz,
                    accum: kacc22 == 1 || kacc22 == 2,
                    n,
                    ktop,
                    kbot,
                    nbmps: nshfts / 2,
                },
            )
        }
    }

    /// The matrix that takes the reflections besides the Hessenberg matrix.
    pub fn target_of(&self) -> (r: Target)
        ensures
            r == self.target(),
            r == Target::Accumulator ==> self.wantz,
    {
        if self.accum {
            Target::Gathered
        } else if self.wantz {
            Target::Accumulator
        } else {
            Target::Neither
        }
    }

    /// Order of the matrix that gathers the reflections of a block.
    pub fn gathered_order(&self) -> (r: i32)
        requires
            self.inv(),
        ensures
            r == self.kdu(),
    {
        4 * self.nbmps
    }

    /// The first block. Its first columns lie before the window, where the
    /// bulges are introduced one after the other.
    pub fn first_block(&self) -> (r: Block)
        requires
            self.inv(),
        ensures
            r == self.block_spec(self.first_col()),
            self.starts_block(self.first_col()),
    {
        proof {
            assert(self.first_col() == self.block_start(0)) by (nonlinear_arith)
                requires
                    self.block_start(0) == self.first_col() + 0 * (2 * self.nbmps),
            ;
        }
        self.block(self.ktop - 2 * self.nbmps + 1)
    }

    /// The block after `block`, if the schedule has one. It starts at the
    /// column after the last one of `block`.
    pub fn next_block(&self, block: &Block) -> (r: Option<Block>)
        requires
            self.inv(),
            self.starts_block(block.incol as int),
            *block == self.block_spec(block.incol as int),
        ensures
            match r {
                Some(next) => {
                    &&& next.incol == block.last + 1
                    &&& next.incol == block.incol + 2 * self.nbmps
                    &&& self.starts_block(next.incol as int)
                    &&& next == self.block_spec(next.incol as int)
                },
                None => block.last == self.last_col(),
            },
    {
        let next: i32 = block.incol + 2 * self.nbmps;
        if next <= self.kbot - 2 {
            proof {
                let t = choose|t: int| 0 <= t && block.incol == #[trigger] self.block_start(t);
                assert(next == self.block_start(t + 1)) by (nonlinear_arith)
                    requires
                        block.incol == self.block_start(t),
                        next == block.incol + 2 * self.nbmps,
                        self.block_start(t) == self.first_col() + t * (2 * self.nbmps),
                        self.block_start(t + 1) == self.first_col() + (t + 1) * (2 * self.nbmps),
                ;
            }
            Some(self.block(next))
        } else {
            None
        }
    }

    /// The block that starts at `incol`.
    fn block(&self, incol: i32) -> (r: Block)
        requires
            self.inv(),
            self.first_col() <= incol <= self.last_col(),
        ensures
            r == self.block_spec(incol as int),
            r.into_z ==> self.wantz,
    {
        let kdu: i32 = 4 * self.nbmps;
        let ndcol: i32 = incol + kdu;
        let k1: i32 = if self.ktop - incol > 1 {
            self.ktop - incol
        } else {
            1
        };
        let over: i32 = if ndcol > self.kbot {
            ndcol - self.kbot
        } else {
            0
        };
        let reach: i32 = incol + 2 * self.nbmps - 1;
        Block {
            incol,
            last: if reach <= self.kbot - 2 {
                reach
            } else {
                self.kbot - 2
            },
            jtop: if self.accum {
                if self.ktop >= incol {
                    self.ktop
                } else {
                    incol
                }
            } else if self.wantt {
                1
            } else {
                self.ktop
            },
            ndcol,
            k1,
            nu: kdu - over - k1 + 1,
            first_row: incol + k1,
            right_from: if ndcol <= self.kbot {
                ndcol + 1
            } else {
                self.kbot + 1
            },
            right_to: if self.wantt {
                self.n
            } else {
                self.kbot
            },
            above_from: if self.wantt {
                1
            } else {
                self.ktop
            },
            above_to: if self.ktop >= incol {
                self.ktop - 1
            } else {
                incol - 1
            },
            gathers: self.accum,
            into_z: self.accum && self.wantz,
        }
    }

    /// The active bulges when the sweep has reached column `krcol` of
    /// `block`.
    pub fn column(&self, block: &Block, krcol: i32) -> (r: Column)
        requires
            self.inv(),
            self.first_col() <= block.incol <= krcol <= self.last_col(),
        ensures
            r == self.column_spec(block.incol as int, krcol as int),
            1 <= r.mtop,
            r.mbot <= self.nbmps,
            r.m22 == r.mbot + 1,
    {
        let mtop: i32 = if self.ktop > krcol {
            (self.ktop - krcol) / 2 + 1
        } else {
            1
        };
        let half: i32 = (self.kbot - krcol - 1) / 2;
        let mbot: i32 = if self.nbmps <= half {
            self.nbmps
        } else {
            half
        };
        let m22: i32 = mbot + 1;
        let ndcol: i32 = block.incol + 4 * self.nbmps;
        Column {
            mtop,
            mbot,
            m22,
            bmp22: mbot < self.nbmps && krcol + 2 * (m22 - 1) == self.kbot - 2,
            jbot: if self.accum {
                if ndcol <= self.kbot {
                    ndcol
                } else {
                    self.kbot
                }
            } else if self.wantt {
                self.n
            } else {
                self.kbot
            },
        }
    }

    /// Bulge `m` of order three when the sweep has reached column `krcol`
    /// of `block`. The bulge lies in the window, its shifts are among those
    /// planned, and its reflection stays inside the gathered matrix.
    pub fn bulge(&self, block: &Block, krcol: i32, m: i32) -> (r: Bulge)
        requires
            self.inv(),
            self.first_col() <= block.incol <= krcol <= self.last_col(),
            krcol <= block.incol + 2 * self.nbmps - 1,
            self.mtop(krcol as int) <= m <= self.mbot(krcol as int),
        ensures
            r == self.bulge_spec(block.incol as int, krcol as int, m as int),
            1 <= r.m <= self.nbmps,
            r.first_shift + 1 <= 2 * self.nbmps,
            self.ktop - 1 <= r.k,
            r.k + 3 <= self.kbot,
            r.right_last == r.k + 3,
            self.ktop <= r.left_first,
            0 <= r.kms,
            r.kms + 3 <= self.kdu(),
            1 <= r.gather_first,
            r.gather_last <= self.kdu(),
            r.target == Target::Accumulator ==> self.wantz,
    {
        let incol: i32 = block.incol;
        let k: i32 = krcol + 2 * (m - 1);
        let kms: i32 = k - incol;
        let half: i32 = (self.kbot - krcol - 1) / 2;
        let mbot: i32 = if self.nbmps <= half {
            self.nbmps
        } else {
            half
        };
        let a: i32 = self.ktop - incol;
        let b: i32 = kms - (krcol - incol) + 1;
        let ab: i32 = if a >= b {
            a
        } else {
            b
        };
        let kdu: i32 = 4 * self.nbmps;
        let c: i32 = krcol + 2 * (mbot - 1) - incol + 5;
        Bulge {
            m,
            first_shift: 2 * m - 1,
            k,
            order: 3,
            fresh: k == self.ktop - 1,
            vigilant: k >= self.ktop,
            right_last: if self.kbot <= k + 3 {
                self.kbot
            } else {
                k + 3
            },
            left_first: if self.ktop >= krcol + 2 * m {
                self.ktop
            } else {
                krcol + 2 * m
            },
            target: self.target_of(),
            kms,
            gather_first: if ab >= 1 {
                ab
            } else {
                1
            },
            gather_last: if kdu <= c {
                kdu
            } else {
                c
            },
        }
    }

    /// The bulge of order two when the sweep has reached column `krcol` of
    /// `block`, where there is one. It sits in the last two rows of the
    /// window, its shifts are among those planned, and its reflection stays
    /// inside the gathered matrix.
    pub fn small_bulge(&self, block: &Block, krcol: i32) -> (r: Bulge)
        requires
            self.inv(),
            self.first_col() <= block.incol <= krcol <= self.last_col(),
            krcol <= block.incol + 2 * self.nbmps - 1,
            self.has_small_bulge(krcol as int),
        ensures
            r == self.small_bulge_spec(block.incol as int, krcol as int),
            1 <= r.m <= self.nbmps,
            r.first_shift + 1 <= 2 * self.nbmps,
            self.ktop - 1 <= r.k,
            r.k + 2 == self.kbot,
            r.right_last == self.kbot,
            self.ktop <= r.left_first,
            0 <= r.kms,
            r.kms + 2 <= self.kdu(),
            1 <= r.gather_first,
            r.gather_last == self.kdu(),
            r.target == Target::Accumulator ==> self.wantz,
    {
        let incol: i32 = block.incol;
        let half: i32 = (self.kbot - krcol - 1) / 2;
        let mbot: i32 = if self.nbmps <= half {
            self.nbmps
        } else {
            half
        };
        let m: i32 = mbot + 1;
        let k: i32 = krcol + 2 * (m - 1);
        Bulge {
            m,
            first_shift: 2 * m - 1,
            k,
            order: 2,
            fresh: k == self.ktop - 1,
            vigilant: k >= self.ktop,
            right_last: if self.kbot <= k + 3 {
                self.kbot
            } else {
                k + 3
            },
            left_first: k + 1,
            target: self.target_of(),
            kms: k - incol,
            gather_first: if self.ktop - incol >= 1 {
                self.ktop - incol
            } else {
                1
            },
            gather_last: 4 * self.nbmps,
        }
    }

    /// Each bulge is taken through every row of the window: for bulge `m`
    /// and a row `k` from the one before the window to the third from its
    /// end, the schedule has the column at which bulge `m` is active right
    /// below row `k`.
    pub proof fn lemma_bulge_visits_row(self, m: int, k: int)
        requires
            self.inv(),
            1 <= m <= self.nbmps,
            self.ktop - 1 <= k <= self.kbot - 3,
        ensures
            ({
                let krcol = k - 2 * (m - 1);
                &&& self.first_col() <= krcol <= self.last_col()
                &&& self.mtop(krcol) <= m <= self.mbot(krcol)
                &&& bulge_row_spec(krcol, m) == k
            }),
    {
    }

    /// The part of the gathered matrix that is multiplied into the rest
    /// stands for the rows of the window that the block has changed: it has
    /// at least two rows, lies inside the gathered matrix, and its rows map
    /// to the rows `first_row..=min(ndcol, kbot)` of the window. The part of
    /// the matrix right of the block starts behind those columns, and the
    /// part above the block ends before the rows that the block has reached
    /// from the right.
    pub proof fn lemma_gathered_part(self, incol: int)
        requires
            self.inv(),
            self.first_col() <= incol <= self.last_col(),
        ensures
            ({
                let b = self.block_spec(incol);
                &&& 1 <= b.k1
                &&& 2 <= b.nu
                &&& b.k1 + b.nu - 1 <= self.kdu()
                &&& self.ktop <= b.first_row
                &&& b.first_row == incol + b.k1
                &&& b.first_row + b.nu - 1 == smaller(b.ndcol as int, self.kbot as int)
                &&& b.right_from == b.first_row + b.nu
                &&& self.accum ==> b.above_to == b.jtop - 1
                &&& b.above_to < b.first_row
            }),
    {
    }
}

/// The entries near row `k` that the test for a negligible subdiagonal
/// entry may read: up to three to the left in row `k` and up to three below
/// in the next column, as far as they lie in the window.
#[derive(Clone, Copy, Debug, PartialEq, Eq, Structural)]
pub struct Neighbours {
    /// How many entries left of the diagonal in row `k` are in the window.
    pub left: i32,
    /// How many entries below the subdiagonal in column `k + 1` are in the
    /// window.
    pub below: i32,
}

/// The neighbours of row `k` in the window `ktop..=kbot`.
pub open spec fn neighbours_spec(ktop: int, kbot: int, k: int) -> Neighbours {
    Neighbours {
        left: smaller(3, larger(0, k - ktop)) as i32,
        below: smaller(3, larger(0, kbot - k - 1)) as i32,
    }
}

/// Counts the entries near row `k` that the test for a negligible
/// subdiagonal entry may read.
pub fn neighbours(ktop: i32, kbot: i32, k: i32) -> (r: Neighbours)
    ensures
        r == neighbours_spec(ktop as int, kbot as int, k as int),
        0 <= r.left <= 3,
        0 <= r.below <= 3,
        ktop <= k - r.left || r.left == 0,
        k + 1 + r.below <= kbot || r.below == 0,
{
    let above: i64 = k as i64 - ktop as i64;
    let under: i64 = kbot as i64 - k as i64 - 1;
    Neighbours {
        left: if above >= 3 {
            3
        } else if above >= 0 {
            above as i32
        } else {
            0
        },
        below: if under >= 3 {
            3
        } else if under >= 0 {
            under as i32
        } else {
            0
        },
    }
}

/// Length of the strip that starts at `at` when the range up to `last` is
/// cut into strips of `width`.
pub open spec fn strip_len_spec(width: int, last: int, at: int) -> int {
    smaller(width, last - at + 1)
}

/// Length of the strip that starts at `at` when the range up to `last` is
/// cut into strips of `width`: the full width, or what is left.
pub fn strip_len(width: i32, last: i32, at: i32) -> (r: i32)
    requires
        at <= last,
    ensures
        r == strip_len_spec(width as int, last as int, at as int),
{
    let left: i64 = last as i64 - at as i64 + 1;
    if (width as i64) <= left {
        width
    } else {
        left as i32
    }
}

/// The shifts after the pass that makes each pair `(i, i + 1)`, for odd `i`
/// from `from` on, either both real or complex conjugate: where the
/// imaginary parts of a pair are not opposite, the shift at `i` moves behind
/// the two that follow it.
pub open spec fn paired(sr: Grid, si: Grid, from: int, nshfts: int) -> (Grid, Grid)
    decreases nshfts - from,
{
    if from > nshfts - 2 {
        (sr, si)
    } else if !ieee::equal(si.get(from), ieee::flipped(si.get(from + 1))) {
        paired(rotate_three(sr, from), rotate_three(si, from), from + 2, nshfts)
    } else {
        paired(sr, si, from + 2, nshfts)
    }
}

/// `g` with the elements at `i`, `i + 1`, `i + 2` replaced by those that
/// stood at `i + 1`, `i + 2`, `i`.
pub open spec fn rotate_three(g: Grid, i: int) -> Grid {
    g.set(i, g.get(i + 1)).set(i + 1, g.get(i + 2)).set(i + 2, g.get(i))
}

/// The first `n` shifts as pairs of a real and an imaginary part.
pub open spec fn shifts_of(sr: Grid, si: Grid, n: int) -> Seq<(u64, u64)> {
    Seq::new(n as nat, |t: int| (sr.cells[t], si.cells[t]))
}

/// Moving three shifts that the vectors hold leaves the same shifts, each as
/// often as before.
proof fn lemma_rotate_permutes(sr: Grid, si: Grid, i: int, n: int)
    requires
        1 <= i,
        i + 2 <= n,
        n <= sr.cells.len(),
        n <= si.cells.len(),
    ensures
        shifts_of(rotate_three(sr, i), rotate_three(si, i), n).to_multiset() == shifts_of(
            sr,
            si,
            n,
        ).to_multiset(),
        rotate_three(sr, i).cells.len() == sr.cells.len(),
        rotate_three(si, i).cells.len() == si.cells.len(),
        forall|t: int| n <= t < sr.cells.len() ==> rotate_three(sr, i).cells[t] == sr.cells[t],
        forall|t: int| n <= t < si.cells.len() ==> rotate_three(si, i).cells[t] == si.cells[t],
{
    let z = shifts_of(sr, si, n);
    let z1 = z.update(i - 1, z[i]);
    let z2 = z1.update(i, z[i + 1]);
    let z3 = z2.update(i + 1, z[i - 1]);
    assert(shifts_of(rotate_three(sr, i), rotate_three(si, i), n) =~= z3);
    broadcast use vstd::multiset::group_multiset_axioms;

    vstd::seq_lib::to_multiset_update(z, i - 1, z[i]);
    vstd::seq_lib::to_multiset_update(z1, i, z[i + 1]);
    vstd::seq_lib::to_multiset_update(z2, i + 1, z[i - 1]);
    vstd::seq_lib::to_multiset_contains(z, z[i - 1]);
    vstd::seq_lib::to_multiset_contains(z, z[i]);
    vstd::seq_lib::to_multiset_contains(z, z[i + 1]);
    assert(z.contains(z[i - 1]) && z.contains(z[i]) && z.contains(z[i + 1]));
    assert(z1[i] == z[i] && z2[i + 1] == z[i + 1]);
    assert(z3.to_multiset() =~= z.to_multiset());
}

/// Pairing the shifts reorders them: where the two vectors hold all the
/// `nshfts` shifts, they hold the same shifts afterwards, each as often as
/// before, and what follows the shifts in the vectors stays.
pub proof fn lemma_paired_permutes(sr: Grid, si: Grid, from: int, nshfts: int)
    requires
        1 <= from,
        nshfts <= sr.cells.len(),
        nshfts <= si.cells.len(),
    ensures
        ({
            let p = paired(sr, si, from, nshfts);
            &&& shifts_of(p.0, p.1, nshfts).to_multiset() == shifts_of(sr, si, nshfts).to_multiset()
            &&& p.0.cells.len() == sr.cells.len()
            &&& p.1.cells.len() == si.cells.len()
            &&& forall|t: int|
                0 <= t && nshfts <= t < sr.cells.len() ==> p.0.cells[t] == sr.cells[t]
            &&& forall|t: int|
                0 <= t && nshfts <= t < si.cells.len() ==> p.1.cells[t] == si.cells[t]
        }),
    decreases nshfts - from,
{
    if from <= nshfts - 2 {
        if !ieee::equal(si.get(from), ieee::flipped(si.get(from + 1))) {
            lemma_rotate_permutes(sr, si, from, nshfts);
            lemma_paired_permutes(rotate_three(sr, from), rotate_three(si, from), from + 2, nshfts);
        } else {
            lemma_paired_permutes(sr, si, from + 2, nshfts);
        }
    }
}

/// Whether the imaginary parts `x` and `y` are opposite: those of a complex
/// conjugate pair, or of two real shifts.
pub open spec fn opposite(x: u64, y: u64) -> bool {
    ieee::equal(x, ieee::flipped(y))
}

/// Whether the imaginary parts from `p` to `n` are those of real shifts and
/// of complex conjugate pairs that follow each other in any order.
pub open spec fn in_units(si: Grid, p: int, n: int) -> bool
    decreases n - p + 1,
{
    if p > n {
        true
    } else {
        (ieee::equal(si.get(p), ieee::ZERO) && in_units(si, p + 1, n)) || (p + 1 <= n && opposite(
            si.get(p),
            si.get(p + 1),
        ) && in_units(si, p + 2, n))
    }
}

/// Whether each of the pairs `(p, p + 1)`, `(p + 2, p + 3)`, ... up to `n`
/// has opposite imaginary parts.
pub open spec fn in_pairs(si: Grid, p: int, n: int) -> bool
    decreases n - p + 1,
{
    if p + 1 > n {
        true
    } else {
        opposite(si.get(p), si.get(p + 1)) && in_pairs(si, p + 2, n)
    }
}

/// The units from `p` on are the same in two vectors that agree from `p`
/// on.
proof fn lemma_units_frame(a: Grid, b: Grid, p: int, n: int)
    requires
        forall|t: int| p <= t <= n ==> a.get(t) == b.get(t),
    ensures
        in_units(a, p, n) == in_units(b, p, n),
    decreases n - p + 2,
{
    if p <= n {
        lemma_units_frame(a, b, p + 1, n);
        lemma_units_frame(a, b, p + 2, n);
    }
}

/// A zero is opposite to zeros only.
proof fn lemma_opposite_zero(x: u64, y: u64)
    ensures
        ieee::equal(x, ieee::ZERO) && ieee::equal(y, ieee::ZERO) ==> opposite(x, y),
        ieee::equal(x, ieee::ZERO) && opposite(x, y) ==> ieee::equal(y, ieee::ZERO),
{
}

/// Pairing does what it is for: where an even number of shifts from `from`
/// on consists of real shifts and of complex conjugate pairs that follow
/// each other, every pair `(from, from + 1)`, `(from + 2, from + 3)`, ...
/// has opposite imaginary parts afterwards.
pub proof fn lemma_paired_in_pairs(sr: Grid, si: Grid, from: int, nshfts: int)
    requires
        1 <= from,
        nshfts <= si.cells.len(),
        (nshfts - from + 1) % 2 == 0,
        in_units(si, from, nshfts),
    ensures
        in_pairs(paired(sr, si, from, nshfts).1, from, nshfts),
    decreases nshfts - from,
{
    let x = si.get(from);
    let y = si.get(from + 1);
    if from > nshfts {
    } else if from > nshfts - 2 {
        // the last pair is not looked at: its shifts are both real, or conjugate
        lemma_opposite_zero(x, y);
        assert(in_units(si, from + 1, nshfts) ==> ieee::equal(y, ieee::ZERO));
        assert(in_pairs(si, from + 2, nshfts));
    } else if !opposite(x, y) {
        // a real shift in front of a conjugate pair: it moves behind the pair
        let r = rotate_three(sr, from);
        let i = rotate_three(si, from);
        lemma_opposite_zero(x, y);
        assert(in_units(si, from + 1, nshfts));
        assert(in_units(si, from + 3, nshfts));
        lemma_units_frame(i, si, from + 3, nshfts);
        assert(in_units(i, from + 2, nshfts));
        lemma_paired_in_pairs(r, i, from + 2, nshfts);
        lemma_paired_keeps_front(r, i, from + 2, nshfts, from);
        lemma_paired_keeps_front(r, i, from + 2, nshfts, from + 1);
    } else {
        // the pair is in place
        lemma_opposite_zero(x, y);
        lemma_opposite_zero(y, si.get(from + 2));
        assert(in_units(si, from + 1, nshfts) ==> in_units(si, from + 2, nshfts) || !ieee::equal(
            y,
            ieee::ZERO,
        ));
        assert(in_units(si, from + 2, nshfts));
        lemma_paired_in_pairs(sr, si, from + 2, nshfts);
        lemma_paired_keeps_front(sr, si, from + 2, nshfts, from);
        lemma_paired_keeps_front(sr, si, from + 2, nshfts, from + 1);
    }
}

/// Pairing from `from` on leaves the elements before `from` alone.
proof fn lemma_paired_keeps_front(sr: Grid, si: Grid, from: int, nshfts: int, t: int)
    requires
        1 <= from,
        t < from,
    ensures
        paired(sr, si, from, nshfts).0.get(t) == sr.get(t),
        paired(sr, si, from, nshfts).1.get(t) == si.get(t),
    decreases nshfts - from,
{
    if from <= nshfts - 2 {
        if !ieee::equal(si.get(from), ieee::flipped(si.get(from + 1))) {
            lemma_paired_keeps_front(
                rotate_three(sr, from),
                rotate_three(si, from),
                from + 2,
                nshfts,
                t,
            );
        } else {
            lemma_paired_keeps_front(sr, si, from + 2, nshfts, t);
        }
    }
}

/// Puts the elements at `i`, `i + 1`, `i + 2` in the order `i + 1`, `i + 2`,
/// `i`.
fn rotate(g: &mut FortranArray, i: i32)
    requires
        i < i32::MAX - 1,
    ensures
        final(g)@ == rotate_three(old(g)@, i as int),
{
    let first = g.get(i);
    let second = g.get(i + 1);
    let third = g.get(i + 2);
    g.set(i, second);
    g.set(i + 1, third);
    g.set(i + 2, first);
}

/// Reorders the shifts so that each pair `(1, 2)`, `(3, 4)`, ... is either a
/// pair of real shifts or a complex conjugate pair, given that the list
/// holds such pairs with single real shifts between them.
pub fn pair_shifts(nshfts: i32, sr: &mut FortranArray, si: &mut FortranArray)
    ensures
        (final(sr)@, final(si)@) == paired(old(sr)@, old(si)@, 1, nshfts as int),
{
    if nshfts < 3 {
        return;
    }
    let mut i: i32 = 1;
    while i <= nshfts - 2
        invariant
            1 <= i <= nshfts,
            paired(sr@, si@, i as int, nshfts as int) == paired(
                old(sr)@,
                old(si)@,
                1,
                nshfts as int,
            ),
        decreases nshfts - i,
    {
        if !ieee::eq(si.get(i), ieee::neg(si.get(i + 1))) {
            rotate(sr, i);
            rotate(si, i);
        }
        i = i + 2;
    }
}

/// Sets the entry of the window's first column that lies two rows below the
/// diagonal to positive zero, if the window has such a row.
pub fn clear_corner(h: &mut FortranArray, ktop: i32, kbot: i32)
    ensures
        final(h)@ == (if ktop + 2 <= kbot {
            old(h)@.set_at(ktop + 2, ktop as int, ieee::ZERO)
        } else {
            old(h)@
        }),
{
    if (ktop as i64) + 2 <= kbot as i64 {
        h.set_at(ktop + 2, ktop, ieee::ZERO);
    }
}

} // verus!
