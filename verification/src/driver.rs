//! Control of the Hessenberg QR driver.
//!
//! The driver works on the rows `ilo..=ihi` of an upper Hessenberg matrix `h`.
//! It looks for a negligible subdiagonal entry from the bottom of the active
//! block upward, splits the block there, records an eigenvalue when a single
//! row has split off, and otherwise asks for a 2 by 2 block to be standardized
//! or for one QR sweep. What needs rounded arithmetic is asked of the caller
//! with a [`Request`] and answered with an [`Event`]; everything else is done
//! here: the bookkeeping of the window, the iteration budget, the choice
//! between ordinary and exceptional shifts, and the writes that store exact
//! values.

use crate::array::{lemma_offset_injective, lemma_set_at_then_get_at, FortranArray, Grid};
use crate::ieee;
use vstd::prelude::*;

verus! {

/// Where the driver stands.
#[derive(Clone, Copy, Debug, PartialEq, Eq, Structural)]
pub enum Phase {
    /// Looking at the subdiagonal entry of row `k`.
    Scanning,
    /// Waiting for the caller's verdict on the entry of row `k`.
    Judging,
    /// Waiting for the caller to finish a QR sweep on rows `l..=i`.
    Sweeping,
    /// Waiting for the caller to standardize the block of rows `i - 1` and `i`.
    Standardizing,
    /// Done; `info` holds the result.
    Finished,
}

/// The shifts that a sweep starts from.
#[derive(Clone, Copy, Debug, PartialEq, Eq, Structural)]
pub enum ShiftKind {
    /// The eigenvalues of the trailing 2 by 2 block.
    Francis,
    /// Exceptional shift built from the top of the active block, on every
    /// tenth sweep without deflation.
    ExceptionalTop,
    /// Exceptional shift built from the bottom of the active block, on every
    /// twentieth sweep without deflation.
    ExceptionalBottom,
}

/// What the driver needs next.
#[derive(Clone, Copy, Debug, PartialEq, Eq, Structural)]
pub enum Request {
    /// Nothing: call again with [`Event::Resume`].
    Continue,
    /// Decide whether `h(k, k-1)` is negligible relative to its neighbours.
    /// Its magnitude is known to exceed the absolute floor. Where the two
    /// diagonal entries next to it are both zero, the entry left of it in
    /// the row above counts in with `left`, and the entry below it with
    /// `below`: these tell whether those entries lie in the window.
    Judge { k: i32, left: bool, below: bool },
    /// Perform one QR sweep on the active block of rows `l..=i`. Reflections
    /// are applied from the left to columns up to `i2` and from the right to
    /// rows from `i1`, and from the right to the accumulator matrix if `z`
    /// says so.
    Sweep { shift: ShiftKind, l: i32, i: i32, i1: i32, i2: i32, z: bool },
    /// Standardize the block of rows `i - 1` and `i` and store its
    /// eigenvalues. If `full` says so, apply the rotation to the columns
    /// `i + 1..=i2` of its rows and to the rows `i1..i - 1` of its columns;
    /// if `z` says so, apply it to the accumulator matrix.
    Standardize { i: i32, i1: i32, i2: i32, full: bool, z: bool },
    /// The driver has stopped: `info` is 0 after convergence, else the row at
    /// which the iteration budget ran out.
    Done { info: i32 },
}

/// The caller's answer to the pending request.
#[derive(Clone, Copy, Debug, PartialEq, Eq, Structural)]
pub enum Event {
    /// Answer to [`Request::Continue`]: nothing to report.
    Resume,
    /// Answer to [`Request::Judge`].
    Judged { negligible: bool },
    /// Answer to [`Request::Sweep`].
    Swept,
    /// Answer to [`Request::Standardize`].
    Standardized,
}

/// The state of one run of the driver.
#[derive(Clone, Copy, Debug)]
pub struct Driver {
    /// Whether the full quasi-triangular form is wanted.
    pub wantt: bool,
    /// Whether the transformations are accumulated.
    pub wantz: bool,
    /// Order of the matrix.
    pub n: i32,
    /// First row of the window.
    pub ilo: i32,
    /// Last row of the window.
    pub ihi: i32,
    /// Absolute floor under which a subdiagonal entry counts as zero.
    pub smlnum: u64,
    /// Sweeps allowed on one active block, less one.
    pub itmax: u64,
    /// Last row that has not deflated yet.
    pub i: i32,
    /// First row of the active block.
    pub l: i32,
    /// Row whose subdiagonal entry is looked at.
    pub k: i32,
    /// Sweeps done on the active block.
    pub its: u64,
    /// Sweeps done since the last deflation.
    pub kdefl: u64,
    /// Where the driver stands.
    pub phase: Phase,
    /// Result, once finished.
    pub info: i32,
}

/// A driver state together with the arrays it works on and the request it
/// has issued.
pub struct Outcome {
    pub driver: Driver,
    pub h: Grid,
    pub wr: Grid,
    pub wi: Grid,
    pub request: Request,
}

/// The iteration budget for a window of `ilo..=ihi`.
pub open spec fn budget(ilo: int, ihi: int) -> int {
    let nh = ihi - ilo + 1;
    30 * (if nh > 10 {
        nh
    } else {
        10
    })
}

/// The shifts for the sweep that follows `kdefl - 1` sweeps without
/// deflation.
pub open spec fn shift_for(kdefl: int) -> ShiftKind {
    if kdefl % 20 == 0 {
        ShiftKind::ExceptionalBottom
    } else if kdefl % 10 == 0 {
        ShiftKind::ExceptionalTop
    } else {
        ShiftKind::Francis
    }
}

/// Whether offset `o` holds the entry of column `j` that lies two rows below
/// the diagonal, or the one three rows below it, and that entry is in a row
/// up to `ihi`.
pub open spec fn below_in_column(h: Grid, j: int, ihi: int, o: int) -> bool {
    (h.has(j + 2, j) && o == h.offset(j + 2, j) && j + 2 <= ihi) || (h.has(j + 3, j) && o
        == h.offset(j + 3, j) && j + 3 <= ihi)
}

/// Whether offset `o` holds an entry that lies two or three rows below the
/// diagonal, in a row up to `ihi` and in a column `j` with `lo <= j < hi`.
pub open spec fn below_hessenberg(h: Grid, lo: int, hi: int, ihi: int, o: int) -> bool {
    exists|j: int| lo <= j < hi && #[trigger] below_in_column(h, j, ihi, o)
}

/// `h` with positive zero in every entry of the window that lies two or
/// three rows below the diagonal.
pub open spec fn hessenberg_part(h: Grid, ilo: int, ihi: int) -> Grid {
    Grid {
        cells: Seq::new(
            h.cells.len(),
            |o: int|
                if below_hessenberg(h, ilo, ihi - 1, ihi, o) {
                    ieee::ZERO
                } else {
                    h.cells[o]
                },
        ),
        ..h
    }
}

/// Storage offset of the entry left of the diagonal in row `r`.
pub open spec fn subdiagonal_offset(h: Grid, r: int) -> int {
    h.offset(r, r - 1)
}

/// Whether `after` is `before` but for positive zeros in entries left of
/// the diagonal in rows `r` with `lo < r <= hi`.
pub open spec fn only_split(before: Grid, after: Grid, lo: int, hi: int) -> bool {
    &&& after.rows == before.rows
    &&& after.cols == before.cols
    &&& after.cells.len() == before.cells.len()
    &&& forall|o: int|
        0 <= o < before.cells.len() ==> #[trigger] after.cells[o] == before.cells[o] || (
        after.cells[o] == ieee::ZERO && exists|r: int|
            lo < r <= hi && before.has(r, r - 1) && o == #[trigger] subdiagonal_offset(before, r))
}

/// Whether `after` is `before` but for the elements `r` with
/// `lo < r <= hi`.
pub open spec fn only_stored(before: Grid, after: Grid, lo: int, hi: int) -> bool {
    &&& after.rows == before.rows
    &&& after.cols == before.cols
    &&& after.cells.len() == before.cells.len()
    &&& forall|t: int|
        0 <= t < before.cells.len() && !(lo < t + 1 <= hi) ==> #[trigger] after.cells[t]
            == before.cells[t]
}

/// Whether a request has the caller change the accumulator matrix.
pub open spec fn touches_accumulator(r: Request) -> bool {
    match r {
        Request::Sweep { z, .. } => z,
        Request::Standardize { z, .. } => z,
        _ => false,
    }
}

/// Whether a request has the caller change the Hessenberg matrix outside
/// the rows and columns of the active block.
pub open spec fn reaches_outside(r: Request, l: int, i: int) -> bool {
    match r {
        Request::Sweep { i1, i2, .. } => i1 < l || i2 > i,
        Request::Standardize { full, .. } => full,
        _ => false,
    }
}

/// Whether two states belong to the same run: they agree in what the run
/// was started with.
pub open spec fn same_run(a: Driver, b: Driver) -> bool {
    &&& a.wantt == b.wantt
    &&& a.wantz == b.wantz
    &&& a.n == b.n
    &&& a.ilo == b.ilo
    &&& a.ihi == b.ihi
    &&& a.smlnum == b.smlnum
    &&& a.itmax == b.itmax
}

impl Driver {
    /// The bounds that hold in every state a run goes through.
    pub open spec fn inv(self) -> bool {
        &&& self.itmax == budget(self.ilo as int, self.ihi as int)
        &&& self.phase != Phase::Finished ==> {
            &&& i32::MIN < self.ilo
            &&& self.ihi < i32::MAX
            &&& self.ilo <= self.l <= self.k <= self.i <= self.ihi
            &&& 0 <= self.its <= self.itmax
            &&& self.kdefl == if self.phase == Phase::Sweeping {
                self.its + 1
            } else {
                self.its as int
            }
        }
        &&& self.phase == Phase::Judging ==> self.l < self.k
        &&& self.phase == Phase::Sweeping ==> self.l == self.k && self.l < self.i - 1
        &&& self.phase == Phase::Standardizing ==> self.l == self.k && self.l == self.i - 1
        &&& self.phase == Phase::Finished ==> self.info == 0 || (self.ilo <= self.info <= self.ihi
            && self.info == self.i && self.its > self.itmax)
    }

    /// Rows and columns that a reflection or rotation reaches outside the
    /// active block: the whole matrix when the full form is wanted, else the
    /// active block alone.
    pub open spec fn reach(self) -> (i32, i32) {
        if self.wantt {
            (1i32, self.n)
        } else {
            (self.l, self.i)
        }
    }

    /// Whether the subdiagonal entry of row `k` is at most the absolute
    /// floor in magnitude.
    pub open spec fn plainly_negligible(self, h: Grid) -> bool {
        ieee::at_most(ieee::cleared(h.get_at(self.k as int, self.k - 1)), self.smlnum)
    }

    /// The request that stands while the driver waits for the caller.
    pub open spec fn pending(self) -> Request {
        match self.phase {
            Phase::Scanning => Request::Continue,
            Phase::Judging => Request::Judge {
                k: self.k,
                left: self.k - 2 >= self.ilo,
                below: self.k + 1 <= self.ihi,
            },
            Phase::Sweeping => Request::Sweep {
                shift: shift_for(self.kdefl as int),
                l: self.l,
                i: self.i,
                i1: self.reach().0,
                i2: self.reach().1,
                z: self.wantz,
            },
            Phase::Standardizing => Request::Standardize {
                i: self.i,
                i1: self.reach().0,
                i2: self.reach().1,
                full: self.wantt,
                z: self.wantz,
            },
            Phase::Finished => Request::Done { info: self.info },
        }
    }

    /// The state after the rows `l..=i` have deflated: the window ends at
    /// `l - 1` and the counters start anew.
    pub open spec fn retired(self) -> Driver {
        if self.l - 1 < self.ilo {
            Driver { i: (self.l - 1) as i32, phase: Phase::Finished, info: 0, ..self }
        } else {
            Driver {
                i: (self.l - 1) as i32,
                l: self.ilo,
                k: (self.l - 1) as i32,
                its: 0,
                kdefl: 0,
                phase: Phase::Scanning,
                ..self
            }
        }
    }

    /// The active block is split above row `k`: the entry left of the
    /// diagonal in that row becomes zero. A single row that has split off is
    /// an eigenvalue; a pair of rows is handed out to be standardized; a
    /// larger block gets a sweep.
    pub open spec fn split(self, h: Grid, wr: Grid, wi: Grid) -> Outcome {
        let h1 = if self.k > self.ilo {
            h.set_at(self.k as int, self.k - 1, ieee::ZERO)
        } else {
            h
        };
        let d = Driver { l: self.k, ..self };
        if d.l == d.i {
            let next = d.retired();
            Outcome {
                driver: next,
                h: h1,
                wr: wr.set(d.i as int, h1.get_at(d.i as int, d.i as int)),
                wi: wi.set(d.i as int, ieee::ZERO),
                request: next.pending(),
            }
        } else if d.l == d.i - 1 {
            let next = Driver { phase: Phase::Standardizing, ..d };
            Outcome { driver: next, h: h1, wr, wi, request: next.pending() }
        } else {
            let next = Driver { kdefl: (d.kdefl + 1) as u64, phase: Phase::Sweeping, ..d };
            Outcome { driver: next, h: h1, wr, wi, request: next.pending() }
        }
    }

    /// One transition. While the driver scans, any event lets it go on.
    /// While it waits, an event that does not answer the pending request
    /// changes nothing, and the request is issued again.
    pub open spec fn step_spec(self, event: Event, h: Grid, wr: Grid, wi: Grid) -> Outcome {
        match (self.phase, event) {
            (Phase::Scanning, _) => {
                if self.k > self.l && !self.plainly_negligible(h) {
                    let next = Driver { phase: Phase::Judging, ..self };
                    Outcome { driver: next, h, wr, wi, request: next.pending() }
                } else {
                    self.split(h, wr, wi)
                }
            },
            (Phase::Judging, Event::Judged { negligible }) => {
                if negligible {
                    self.split(h, wr, wi)
                } else {
                    let next = Driver { k: (self.k - 1) as i32, phase: Phase::Scanning, ..self };
                    Outcome { driver: next, h, wr, wi, request: next.pending() }
                }
            },
            (Phase::Sweeping, Event::Swept) => {
                let next = if self.its + 1 > self.itmax {
                    Driver {
                        its: (self.its + 1) as u64,
                        phase: Phase::Finished,
                        info: self.i,
                        ..self
                    }
                } else {
                    Driver {
                        its: (self.its + 1) as u64,
                        k: self.i,
                        phase: Phase::Scanning,
                        ..self
                    }
                };
                Outcome { driver: next, h, wr, wi, request: next.pending() }
            },
            (Phase::Standardizing, Event::Standardized) => {
                let next = self.retired();
                Outcome { driver: next, h, wr, wi, request: next.pending() }
            },
            _ => Outcome { driver: self, h, wr, wi, request: self.pending() },
        }
    }

    /// Whether `event` answers the request that is pending.
    pub open spec fn answers(self, event: Event) -> bool {
        match (self.phase, event) {
            (Phase::Scanning, _) => true,
            (Phase::Judging, Event::Judged { negligible }) => true,
            (Phase::Sweeping, Event::Swept) => true,
            (Phase::Standardizing, Event::Standardized) => true,
            _ => false,
        }
    }

    /// Rank of the phase in the order in which a block is worked on.
    pub open spec fn phase_rank(self) -> int {
        match self.phase {
            Phase::Scanning => 3,
            Phase::Judging => 2,
            Phase::Sweeping => 1,
            Phase::Standardizing => 1,
            Phase::Finished => 0,
        }
    }

    /// Whether `self` comes strictly after `before` in a run: the window is
    /// shorter, or else more of the budget is used, or else the scan is
    /// further up, or else the phase is further on.
    pub open spec fn after(self, before: Driver) -> bool {
        let a = (
            if self.phase == Phase::Finished {
                self.ilo - 1
            } else {
                self.i as int
            },
            self.itmax - self.its,
            self.k - self.l,
            self.phase_rank(),
        );
        let b = (before.i as int, before.itmax - before.its, before.k - before.l, before.phase_rank());
        a.0 < b.0 || (a.0 == b.0 && (a.1 < b.1 || (a.1 == b.1 && (a.2 < b.2 || (a.2 == b.2 && a.3
            < b.3)))))
    }

    /// A bound on the number of answers that the run can still take.
    pub open spec fn remaining(self) -> nat {
        if self.phase == Phase::Finished {
            0
        } else {
            let rows = self.ihi - self.ilo + 1;
            let blocks = (self.i - self.ilo + 1) * (self.itmax + 2) + (self.itmax + 1 - self.its);
            ((blocks * (rows + 1) + (self.k - self.l)) * 4 + self.phase_rank()) as nat
        }
    }

    /// A state that comes after another in the same run has less left to do.
    pub proof fn lemma_after_counts_down(self, before: Driver)
        requires
            self.inv(),
            before.inv(),
            same_run(self, before),
            before.phase != Phase::Finished,
            self.after(before),
        ensures
            self.remaining() < before.remaining(),
    {
        let rows = before.ihi - before.ilo + 1;
        let cap = before.itmax + 2;
        let rows0 = before.i - before.ilo + 1;
        let left0 = before.itmax + 1 - before.its;
        let scan0 = before.k - before.l;
        let blocks0 = rows0 * cap + left0;
        let whole0 = blocks0 * (rows + 1) + scan0;
        assert(blocks0 >= 1 && whole0 >= 1) by (nonlinear_arith)
            requires
                rows0 >= 1,
                cap >= 2,
                left0 >= 1,
                rows >= 1,
                scan0 >= 0,
                blocks0 == rows0 * cap + left0,
                whole0 == blocks0 * (rows + 1) + scan0,
        ;
        if self.phase != Phase::Finished {
            let rows1 = self.i - self.ilo + 1;
            let left1 = self.itmax + 1 - self.its;
            let scan1 = self.k - self.l;
            let blocks1 = rows1 * cap + left1;
            let whole1 = blocks1 * (rows + 1) + scan1;
            if rows1 < rows0 {
                assert(blocks1 < blocks0) by (nonlinear_arith)
                    requires
                        rows1 < rows0,
                        1 <= left1 <= cap - 1,
                        1 <= left0,
                        blocks0 == rows0 * cap + left0,
                        blocks1 == rows1 * cap + left1,
                ;
            }
            if blocks1 < blocks0 {
                assert(whole1 < whole0) by (nonlinear_arith)
                    requires
                        blocks1 < blocks0,
                        0 <= scan1 <= rows,
                        0 <= scan0,
                        rows >= 1,
                        whole0 == blocks0 * (rows + 1) + scan0,
                        whole1 == blocks1 * (rows + 1) + scan1,
                ;
            }
        }
    }

    /// A bound on the number of transitions that can follow each other
    /// without a request to the caller.
    pub open spec fn fuel(self) -> nat {
        if self.phase == Phase::Finished {
            0
        } else {
            (2 * (self.i - self.ilo + 1) + (if self.phase == Phase::Scanning {
                0int
            } else {
                1int
            })) as nat
        }
    }

    /// The transitions from `event` on up to the first request that is not
    /// [`Request::Continue`].
    pub open spec fn settle(self, event: Event, h: Grid, wr: Grid, wi: Grid) -> Outcome
        decreases self.fuel(),
        when self.inv()
    {
        let o = self.step_spec(event, h, wr, wi);
        if o.request == Request::Continue {
            o.driver.settle(Event::Resume, o.h, o.wr, o.wi)
        } else {
            o
        }
    }

    /// The state and the first request of a run on the window `ilo..=ihi`
    /// of a matrix of order `n`.
    pub open spec fn begin_spec(
        wantt: bool,
        wantz: bool,
        n: i32,
        ilo: i32,
        ihi: i32,
        smlnum: u64,
        h: Grid,
        wr: Grid,
        wi: Grid,
    ) -> Outcome {
        let d = Driver {
            wantt,
            wantz,
            n,
            ilo,
            ihi,
            smlnum,
            itmax: budget(ilo as int, ihi as int) as u64,
            i: ihi,
            l: ilo,
            k: ihi,
            its: 0,
            kdefl: 0,
            phase: Phase::Finished,
            info: 0,
        };
        if n == 0 || ihi < ilo {
            Outcome { driver: d, h, wr, wi, request: d.pending() }
        } else if ilo == ihi {
            Outcome {
                driver: d,
                h,
                wr: wr.set(ilo as int, h.get_at(ilo as int, ilo as int)),
                wi: wi.set(ilo as int, ieee::ZERO),
                request: d.pending(),
            }
        } else {
            let next = Driver { phase: Phase::Scanning, ..d };
            Outcome {
                driver: next,
                h: hessenberg_part(h, ilo as int, ihi as int),
                wr,
                wi,
                request: next.pending(),
            }
        }
    }

    /// Starts a run. An empty matrix or window is finished at once; a window
    /// of one row stores that diagonal entry as a real eigenvalue and is
    /// finished too. Otherwise the entries of the window two and three rows
    /// below the diagonal are set to zero and the scan starts at row `ihi`.
    pub fn begin(
        wantt: bool,
        wantz: bool,
        n: i32,
        ilo: i32,
        ihi: i32,
        smlnum: u64,
        h: &mut FortranArray,
        wr: &mut FortranArray,
        wi: &mut FortranArray,
    ) -> (r: (Driver, Request))
        requires
            n != 0 && ilo < ihi ==> i32::MIN < ilo && ihi < i32::MAX,
        ensures
            (Outcome { driver: r.0, h: final(h)@, wr: final(wr)@, wi: final(wi)@, request: r.1 })
                == Driver::begin_spec(wantt, wantz, n, ilo, ihi, smlnum, old(h)@, old(wr)@, old(wi)@),
            r.0.inv(),
            r.1 == r.0.pending(),
    {
        let nh: i64 = ihi as i64 - ilo as i64 + 1;
        let itmax: u64 = 30 * (if nh > 10 {
            nh as u64
        } else {
            10
        });
        let mut d = Driver {
            wantt,
            wantz,
            n,
            ilo,
            ihi,
            smlnum,
            itmax,
            i: ihi,
            l: ilo,
            k: ihi,
            its: 0,
            kdefl: 0,
            phase: Phase::Finished,
            info: 0,
        };
        if n == 0 || ihi < ilo {
            return (d, Request::Done { info: 0 });
        }
        if ilo == ihi {
            let x = h.get_at(ilo, ilo);
            wr.set(ilo, x);
            wi.set(ilo, ieee::ZERO);
            return (d, Request::Done { info: 0 });
        }
        clear_below_subdiagonal(h, ilo, ihi);
        d.phase = Phase::Scanning;
        (d, Request::Continue)
    }

    /// The rows and columns that reflections and rotations reach.
    fn reach_of(&self) -> (r: (i32, i32))
        ensures
            r == self.reach(),
    {
        if self.wantt {
            (1, self.n)
        } else {
            (self.l, self.i)
        }
    }

    /// The request that stands in the current phase.
    pub fn request(&self) -> (r: Request)
        ensures
            r == self.pending(),
            touches_accumulator(r) ==> self.wantz,
            reaches_outside(r, self.l as int, self.i as int) ==> self.wantt,
    {
        match self.phase {
            Phase::Scanning => Request::Continue,
            Phase::Judging => Request::Judge {
                k: self.k,
                left: self.k as i64 - 2 >= self.ilo as i64,
                below: self.k as i64 + 1 <= self.ihi as i64,
            },
            Phase::Sweeping => {
                let (i1, i2) = self.reach_of();
                let shift = if self.kdefl % 20 == 0 {
                    ShiftKind::ExceptionalBottom
                } else if self.kdefl % 10 == 0 {
                    ShiftKind::ExceptionalTop
                } else {
                    ShiftKind::Francis
                };
                Request::Sweep { shift, l: self.l, i: self.i, i1, i2, z: self.wantz }
            },
            Phase::Standardizing => {
                let (i1, i2) = self.reach_of();
                Request::Standardize { i: self.i, i1, i2, full: self.wantt, z: self.wantz }
            },
            Phase::Finished => Request::Done { info: self.info },
        }
    }

    /// Closes the active block after its rows `l..=i` have deflated.
    fn retire(&mut self)
        requires
            i32::MIN < old(self).ilo <= old(self).l,
        ensures
            *final(self) == old(self).retired(),
    {
        let top: i32 = self.l - 1;
        self.i = top;
        if top < self.ilo {
            self.phase = Phase::Finished;
            self.info = 0;
        } else {
            self.l = self.ilo;
            self.k = top;
            self.its = 0;
            self.kdefl = 0;
            self.phase = Phase::Scanning;
        }
    }

    /// Splits the active block above row `k`.
    fn split_here(
        &mut self,
        h: &mut FortranArray,
        wr: &mut FortranArray,
        wi: &mut FortranArray,
    ) -> (r: Request)
        requires
            old(self).inv(),
            old(self).phase == Phase::Scanning || old(self).phase == Phase::Judging,
        ensures
            (Outcome {
                driver: *final(self),
                h: final(h)@,
                wr: final(wr)@,
                wi: final(wi)@,
                request: r,
            }) == old(self).split(old(h)@, old(wr)@, old(wi)@),
            final(self).inv(),
            final(self).after(*old(self)),
            final(self).i <= old(self).i,
            same_run(*final(self), *old(self)),
            only_split(old(h)@, final(h)@, old(self).ilo as int, old(self).i as int),
            only_stored(old(wr)@, final(wr)@, final(self).i as int, old(self).i as int),
            only_stored(old(wi)@, final(wi)@, final(self).i as int, old(self).i as int),
    {
        if self.k > self.ilo {
            h.set_at(self.k, self.k - 1, ieee::ZERO);
            assert(old(h)@.offset(self.k as int, self.k - 1) == subdiagonal_offset(
                old(h)@,
                self.k as int,
            ));
        }
        self.l = self.k;
        if self.l == self.i {
            let x = h.get_at(self.i, self.i);
            wr.set(self.i, x);
            wi.set(self.i, ieee::ZERO);
            self.retire();
        } else if self.l == self.i - 1 {
            self.phase = Phase::Standardizing;
        } else {
            self.kdefl = self.kdefl + 1;
            self.phase = Phase::Sweeping;
        }
        self.request()
    }

    /// Takes the caller's answer to the pending request and moves on to the
    /// next request. Until the driver has finished, every answered request
    /// brings the run strictly forward, the window never grows, and `h`,
    /// `wr` and `wi` change only as a split does.
    pub fn step(
        &mut self,
        event: Event,
        h: &mut FortranArray,
        wr: &mut FortranArray,
        wi: &mut FortranArray,
    ) -> (r: Request)
        requires
            old(self).inv(),
        ensures
            (Outcome {
                driver: *final(self),
                h: final(h)@,
                wr: final(wr)@,
                wi: final(wi)@,
                request: r,
            }) == old(self).step_spec(event, old(h)@, old(wr)@, old(wi)@),
            final(self).inv(),
            r == final(self).pending(),
            touches_accumulator(r) ==> old(self).wantz,
            reaches_outside(r, final(self).l as int, final(self).i as int) ==> old(self).wantt,
            old(self).answers(event) ==> final(self).after(*old(self)),
            old(self).answers(event) && old(self).phase != Phase::Finished ==> final(self).remaining()
                < old(self).remaining(),
            final(self).i <= old(self).i,
            same_run(*final(self), *old(self)),
            only_split(old(h)@, final(h)@, old(self).ilo as int, old(self).i as int),
            only_stored(old(wr)@, final(wr)@, final(self).i as int, old(self).i as int),
            only_stored(old(wi)@, final(wi)@, final(self).i as int, old(self).i as int),
            r matches Request::Done { info } ==> info == 0 || (final(self).ilo <= info
                <= final(self).ihi && info == final(self).i && final(self).its > final(self).itmax),
    {
        let r = match (self.phase, event) {
            (Phase::Scanning, _) => {
                let plain = if self.k > self.l {
                    ieee::le(ieee::abs(h.get_at(self.k, self.k - 1)), self.smlnum)
                } else {
                    true
                };
                if plain {
                    self.split_here(h, wr, wi)
                } else {
                    self.phase = Phase::Judging;
                    self.request()
                }
            },
            (Phase::Judging, Event::Judged { negligible }) => {
                if negligible {
                    self.split_here(h, wr, wi)
                } else {
                    self.k = self.k - 1;
                    self.phase = Phase::Scanning;
                    Request::Continue
                }
            },
            (Phase::Sweeping, Event::Swept) => {
                self.its = self.its + 1;
                if self.its > self.itmax {
                    self.phase = Phase::Finished;
                    self.info = self.i;
                } else {
                    self.k = self.i;
                    self.phase = Phase::Scanning;
                }
                self.request()
            },
            (Phase::Standardizing, Event::Standardized) => {
                self.retire();
                self.request()
            },
            _ => self.request(),
        };
        proof {
            if old(self).answers(event) && old(self).phase != Phase::Finished {
                self.lemma_after_counts_down(*old(self));
            }
        }
        r
    }

    /// Takes the caller's answer to the pending request and goes on until
    /// the caller is needed again: never returns [`Request::Continue`].
    pub fn advance(
        &mut self,
        event: Event,
        h: &mut FortranArray,
        wr: &mut FortranArray,
        wi: &mut FortranArray,
    ) -> (r: Request)
        requires
            old(self).inv(),
        ensures
            (Outcome {
                driver: *final(self),
                h: final(h)@,
                wr: final(wr)@,
                wi: final(wi)@,
                request: r,
            }) == old(self).settle(event, old(h)@, old(wr)@, old(wi)@),
            final(self).inv(),
            r == final(self).pending(),
            touches_accumulator(r) ==> old(self).wantz,
            reaches_outside(r, final(self).l as int, final(self).i as int) ==> old(self).wantt,
            r != Request::Continue,
            final(self).i <= old(self).i,
            same_run(*final(self), *old(self)),
            only_split(old(h)@, final(h)@, old(self).ilo as int, old(self).i as int),
            only_stored(old(wr)@, final(wr)@, final(self).i as int, old(self).i as int),
            only_stored(old(wi)@, final(wi)@, final(self).i as int, old(self).i as int),
            old(self).answers(event) ==> final(self).after(*old(self)),
            old(self).answers(event) && old(self).phase != Phase::Finished ==> final(self).remaining()
                < old(self).remaining(),
    {
        let mut r = self.step(event, h, wr, wi);
        while r == Request::Continue
            invariant
                old(self).inv(),
                self.inv(),
                r == self.pending(),
                self.i <= old(self).i,
                same_run(*self, *old(self)),
                only_split(old(h)@, h@, old(self).ilo as int, old(self).i as int),
                only_stored(old(wr)@, wr@, self.i as int, old(self).i as int),
                only_stored(old(wi)@, wi@, self.i as int, old(self).i as int),
                old(self).answers(event) ==> self.after(*old(self)),
                old(self).answers(event) && old(self).phase != Phase::Finished ==> self.remaining()
                    < old(self).remaining(),
                old(self).settle(event, old(h)@, old(wr)@, old(wi)@) == (if r == Request::Continue {
                    self.settle(Event::Resume, h@, wr@, wi@)
                } else {
                    Outcome { driver: *self, h: h@, wr: wr@, wi: wi@, request: r }
                }),
            decreases
                    (if r == Request::Continue {
                        self.fuel() + 1
                    } else {
                        0
                    }),
        {
            let ghost h1 = h@;
            let ghost i1 = self.i;
            r = self.step(Event::Resume, h, wr, wi);
            proof {
                lemma_split_twice(old(h)@, h1, h@, self.ilo as int, i1 as int, old(self).i as int);
            }
        }
        r
    }
}

/// What one step of a bulge chase does at row `k`, in a sweep on the active
/// block `l..=i` that started at row `m`.
#[derive(Clone, Copy, Debug, PartialEq, Eq, Structural)]
pub struct ChaseStep {
    /// Order of the reflector: 3, or 2 in the last step.
    pub nr: i32,
    /// Whether the reflector is built from the column left of the diagonal;
    /// the first step builds it from the shift vector.
    pub from_column: bool,
    /// Whether the entry left of the diagonal in row `k` is multiplied by
    /// `1 - tau`, which is what the reflector does to it in the first step
    /// of a sweep that starts below the top of the active block.
    pub scale_left: bool,
    /// Whether the entry two rows below row `k` in the column left of the
    /// diagonal is cleared, besides the one below row `k`.
    pub clear_second: bool,
    /// Last row that the reflector reaches from the right.
    pub last_row: i32,
}

/// The step at row `k`.
pub open spec fn chase_step_spec(l: int, m: int, k: int, i: int) -> ChaseStep {
    ChaseStep {
        nr: (if i - k + 1 >= 3 {
            3int
        } else {
            i - k + 1
        }) as i32,
        from_column: k > m,
        scale_left: k == m && m > l,
        clear_second: k > m && k < i - 1,
        last_row: (if k + 3 <= i {
            k + 3
        } else {
            i
        }) as i32,
    }
}

/// Tells what the step at row `k` of a bulge chase does. The reflector has
/// order 3 except in the last step, and the rows it works on, `k` to
/// `k + nr - 1`, lie in the active block.
pub fn chase_step(l: i32, m: i32, k: i32, i: i32) -> (r: ChaseStep)
    requires
        l <= m <= k < i,
    ensures
        r == chase_step_spec(l as int, m as int, k as int, i as int),
        2 <= r.nr <= 3,
        k + r.nr - 1 <= i,
        r.nr == 2 <==> k == i - 1,
        k < r.last_row <= i,
{
    let rest: i64 = i as i64 - k as i64 + 1;
    ChaseStep {
        nr: if rest >= 3 {
            3
        } else {
            rest as i32
        },
        from_column: k > m,
        scale_left: k == m && m > l,
        clear_second: k > m && (k as i64) < i as i64 - 1,
        last_row: if k as i64 + 3 <= i as i64 {
            k + 3
        } else {
            i
        },
    }
}

/// Splits that follow each other in a shrinking window are splits in the
/// window they started in.
proof fn lemma_split_twice(a: Grid, b: Grid, c: Grid, lo: int, mid: int, hi: int)
    requires
        only_split(a, b, lo, hi),
        only_split(b, c, lo, mid),
        mid <= hi,
    ensures
        only_split(a, c, lo, hi),
{
    assert forall|o: int| 0 <= o < a.cells.len() implies #[trigger] c.cells[o] == a.cells[o] || (
    c.cells[o] == ieee::ZERO && exists|r: int|
        lo < r <= hi && a.has(r, r - 1) && o == #[trigger] subdiagonal_offset(a, r)) by {
        if c.cells[o] != b.cells[o] {
            let r = choose|r: int|
                lo < r <= mid && b.has(r, r - 1) && o == #[trigger] subdiagonal_offset(b, r);
            assert(a.has(r, r - 1) && subdiagonal_offset(b, r) == subdiagonal_offset(a, r));
        } else if b.cells[o] != a.cells[o] {
            assert(b.cells[o] == ieee::ZERO);
        }
    }
}

/// The entry left of the diagonal in row `r`.
pub open spec fn subdiagonal(h: Grid, r: int) -> u64 {
    h.get_at(r, r - 1)
}

/// Whether every entry of `h` below the diagonal, in the rows and columns
/// `lo..=hi`, is a zero of either sign.
pub open spec fn upper_triangular(h: Grid, lo: int, hi: int) -> bool {
    forall|r: int, c: int|
        lo <= c < r <= hi ==> ieee::equal(#[trigger] h.get_at(r, c), ieee::ZERO)
}

/// Whether `after` is `before` but for negative zeros that have become
/// positive zeros.
pub open spec fn kept_but_for_signs_of_zeros(before: Grid, after: Grid) -> bool {
    &&& after.rows == before.rows
    &&& after.cols == before.cols
    &&& after.cells.len() == before.cells.len()
    &&& forall|o: int|
        0 <= o < before.cells.len() ==> #[trigger] after.cells[o] == before.cells[o] || (
        before.cells[o] == ieee::SIGN_BIT && after.cells[o] == ieee::ZERO)
}

/// `wr` with the diagonal entries `lo..=hi` of `h` stored in the elements
/// `lo..=hi`.
pub open spec fn diagonal_stored(wr: Grid, h: Grid, lo: int, hi: int) -> Grid {
    Grid {
        cells: Seq::new(
            wr.cells.len(),
            |t: int|
                if lo <= t + 1 <= hi {
                    h.get_at(t + 1, t + 1)
                } else {
                    wr.cells[t]
                },
        ),
        ..wr
    }
}

/// `wi` with positive zero stored in the elements `lo..=hi`.
pub open spec fn zeros_stored(wi: Grid, lo: int, hi: int) -> Grid {
    Grid {
        cells: Seq::new(
            wi.cells.len(),
            |t: int|
                if lo <= t + 1 <= hi {
                    ieee::ZERO
                } else {
                    wi.cells[t]
                },
        ),
        ..wi
    }
}

/// A window whose subdiagonal is zero deflates row by row without a single
/// request to the caller: from a scan that starts at the bottom of the
/// window, the driver finishes with `info == 0`, leaves `h` as it is but
/// for the signs of zeros, stores the diagonal in `wr` and zeros in `wi`.
pub proof fn lemma_deflated_window_is_immediate(d: Driver, h: Grid, wr: Grid, wi: Grid)
    requires
        d.inv(),
        d.phase == Phase::Scanning,
        d.k == d.i,
        d.l == d.ilo,
        ieee::at_most(ieee::ZERO, d.smlnum),
        forall|r: int| d.ilo < r <= d.i ==> ieee::equal(#[trigger] subdiagonal(h, r), ieee::ZERO),
    ensures
        ({
            let o = d.settle(Event::Resume, h, wr, wi);
            &&& o.request == Request::Done { info: 0 }
            &&& o.driver.phase == Phase::Finished
            &&& kept_but_for_signs_of_zeros(h, o.h)
            &&& o.wr == diagonal_stored(wr, h, d.ilo as int, d.i as int)
            &&& o.wi == zeros_stored(wi, d.ilo as int, d.i as int)
        }),
    decreases d.i - d.ilo,
{
    let first = d.step_spec(Event::Resume, h, wr, wi);
    let i = d.i as int;
    let h1 = first.h;
    if d.i > d.ilo {
        assert(ieee::equal(subdiagonal(h, i), ieee::ZERO));
        assert(d.plainly_negligible(h));
        assert(h1 == h.set_at(i, i - 1, ieee::ZERO));
    } else {
        assert(h1 == h);
    }
    assert(first == d.split(h, wr, wi));
    assert(kept_but_for_signs_of_zeros(h, h1));
    assert forall|t: int| h1.get_at(t, t) == h.get_at(t, t) by {
        lemma_set_at_then_get_at(h, i, i - 1, ieee::ZERO, t, t);
    }
    assert(first.wr == wr.set(i, h.get_at(i, i)));
    assert(first.wi == wi.set(i, ieee::ZERO));
    if d.i > d.ilo {
        let next = first.driver;
        assert(first.request == Request::Continue);
        assert(next.i == d.i - 1 && next.k == next.i && next.l == d.ilo);
        assert forall|r: int| next.ilo < r <= next.i implies ieee::equal(
            #[trigger] subdiagonal(h1, r),
            ieee::ZERO,
        ) by {
            lemma_set_at_then_get_at(h, i, i - 1, ieee::ZERO, r, r - 1);
            assert(subdiagonal(h1, r) == subdiagonal(h, r));
        }
        lemma_deflated_window_is_immediate(next, h1, first.wr, first.wi);
        let o = next.settle(Event::Resume, h1, first.wr, first.wi);
        assert(d.settle(Event::Resume, h, wr, wi) == o);
        assert(kept_but_for_signs_of_zeros(h, o.h));
        assert(o.wr.cells =~= diagonal_stored(wr, h, d.ilo as int, i).cells);
        assert(o.wi.cells =~= zeros_stored(wi, d.ilo as int, i).cells);
    } else {
        assert(first.request == Request::Done { info: 0 });
        assert(d.settle(Event::Resume, h, wr, wi) == first);
        assert(first.wr.cells =~= diagonal_stored(wr, h, d.ilo as int, i).cells);
        assert(first.wi.cells =~= zeros_stored(wi, d.ilo as int, i).cells);
    }
}

/// A run on a window that is upper triangular already returns at once: the
/// first call for a request gives `info == 0`, `h` is left as it is but for
/// the signs of zeros, the diagonal stands in `wr` and zeros stand in `wi`.
pub proof fn lemma_triangular_run_is_immediate(
    wantt: bool,
    wantz: bool,
    n: i32,
    ilo: i32,
    ihi: i32,
    smlnum: u64,
    h: Grid,
    wr: Grid,
    wi: Grid,
)
    requires
        ilo <= ihi,
        ilo < ihi ==> i32::MIN < ilo && ihi < i32::MAX,
        n != 0,
        ieee::at_most(ieee::ZERO, smlnum),
        upper_triangular(h, ilo as int, ihi as int),
    ensures
        ({
            let b = Driver::begin_spec(wantt, wantz, n, ilo, ihi, smlnum, h, wr, wi);
            let o = if b.request == Request::Continue {
                b.driver.settle(Event::Resume, b.h, b.wr, b.wi)
            } else {
                b
            };
            &&& o.request == Request::Done { info: 0 }
            &&& kept_but_for_signs_of_zeros(h, o.h)
            &&& o.wr == diagonal_stored(wr, h, ilo as int, ihi as int)
            &&& o.wi == zeros_stored(wi, ilo as int, ihi as int)
        }),
{
    let b = Driver::begin_spec(wantt, wantz, n, ilo, ihi, smlnum, h, wr, wi);
    if ilo == ihi {
        assert(b.wr.cells =~= diagonal_stored(wr, h, ilo as int, ihi as int).cells);
        assert(b.wi.cells =~= zeros_stored(wi, ilo as int, ihi as int).cells);
    } else {
        let g = b.h;
        assert forall|o: int| 0 <= o < h.cells.len() && below_hessenberg(
            h,
            ilo as int,
            ihi - 1,
            ihi as int,
            o,
        ) implies ieee::equal(h.cells[o], ieee::ZERO) by {
            let j = choose|j: int|
                ilo <= j < ihi - 1 && #[trigger] below_in_column(h, j, ihi as int, o);
            if h.has(j + 2, j) && o == h.offset(j + 2, j) && j + 2 <= ihi {
                assert(ieee::equal(h.get_at(j + 2, j), ieee::ZERO));
            } else {
                assert(ieee::equal(h.get_at(j + 3, j), ieee::ZERO));
            }
        }
        assert(kept_but_for_signs_of_zeros(h, g));
        assert forall|t: int| g.get_at(t, t) == h.get_at(t, t) by {
            let o = h.offset(t, t);
            if h.has(t, t) && below_hessenberg(h, ilo as int, ihi - 1, ihi as int, o) {
                let j = choose|j: int|
                    ilo <= j < ihi - 1 && #[trigger] below_in_column(h, j, ihi as int, o);
                if h.has(j + 2, j) && o == h.offset(j + 2, j) {
                    lemma_offset_injective(h, t, t, j + 2, j);
                } else {
                    lemma_offset_injective(h, t, t, j + 3, j);
                }
            }
        }
        assert forall|r: int| ilo < r <= ihi implies ieee::equal(
            #[trigger] subdiagonal(g, r),
            ieee::ZERO,
        ) by {
            assert(ieee::equal(h.get_at(r, r - 1), ieee::ZERO));
        }
        lemma_deflated_window_is_immediate(b.driver, g, b.wr, b.wi);
        let o = b.driver.settle(Event::Resume, g, b.wr, b.wi);
        assert(kept_but_for_signs_of_zeros(h, o.h));
        assert(diagonal_stored(wr, g, ilo as int, ihi as int).cells =~= diagonal_stored(
            wr,
            h,
            ilo as int,
            ihi as int,
        ).cells);
    }
}

/// A window of one row is finished at the start: its diagonal entry is
/// stored as a real eigenvalue, and nothing else changes.
pub proof fn lemma_single_row_is_immediate(
    wantt: bool,
    wantz: bool,
    n: i32,
    ilo: i32,
    smlnum: u64,
    h: Grid,
    wr: Grid,
    wi: Grid,
)
    requires
        n != 0,
    ensures
        ({
            let b = Driver::begin_spec(wantt, wantz, n, ilo, ilo, smlnum, h, wr, wi);
            &&& b.request == Request::Done { info: 0 }
            &&& b.h == h
            &&& b.wr == wr.set(ilo as int, h.get_at(ilo as int, ilo as int))
            &&& b.wi == wi.set(ilo as int, ieee::ZERO)
            &&& forall|r: int| r != ilo ==> b.wr.get(r) == wr.get(r) && b.wi.get(r) == wi.get(r)
        }),
{
}

/// Whether the window `lo..=hi` of `h` is quasi-triangular for the floor
/// `floor`: every entry left of the diagonal is a zero, or exceeds the
/// floor in magnitude and has a zero left of the diagonal in the row above,
/// where that row is in the window. The diagonal blocks are then single
/// rows and pairs of rows.
pub open spec fn quasi_triangular(h: Grid, lo: int, hi: int, floor: u64) -> bool {
    forall|r: int|
        lo < r <= hi ==> ieee::equal(#[trigger] subdiagonal(h, r), ieee::ZERO) || (!ieee::at_most(
            ieee::cleared(subdiagonal(h, r)),
            floor,
        ) && (r - 1 <= lo || ieee::equal(subdiagonal(h, r - 1), ieee::ZERO)))
}

impl Driver {
    /// Whether the driver stands on a window that is quasi-triangular from
    /// its top to the last row that has not deflated, at a place where the
    /// scan cannot come to ask for a sweep.
    pub open spec fn calm(self, h: Grid) -> bool {
        let lo = self.ilo as int;
        match self.phase {
            Phase::Scanning => {
                &&& self.l == self.ilo
                &&& quasi_triangular(h, lo, self.i as int, self.smlnum)
                &&& self.k == self.i || (self.k == self.i - 1 && (self.k == self.ilo || ieee::equal(
                    subdiagonal(h, self.k as int),
                    ieee::ZERO,
                )))
            },
            Phase::Judging => {
                &&& self.l == self.ilo
                &&& self.k == self.i
                &&& quasi_triangular(h, lo, self.i as int, self.smlnum)
                &&& !self.plainly_negligible(h)
            },
            Phase::Standardizing => quasi_triangular(h, lo, self.l - 1, self.smlnum),
            Phase::Sweeping => false,
            Phase::Finished => self.info == 0,
        }
    }
}

/// Writing a zero left of the diagonal keeps a window quasi-triangular.
proof fn lemma_split_keeps_quasi(h: Grid, k: int, lo: int, hi: int, floor: u64)
    requires
        quasi_triangular(h, lo, hi, floor),
    ensures
        quasi_triangular(h.set_at(k, k - 1, ieee::ZERO), lo, hi, floor),
        forall|r: int|
            r != k ==> subdiagonal(h.set_at(k, k - 1, ieee::ZERO), r) == #[trigger] subdiagonal(
                h,
                r,
            ),
        ieee::equal(subdiagonal(h, k), ieee::ZERO) ==> kept_but_for_signs_of_zeros(
            h,
            h.set_at(k, k - 1, ieee::ZERO),
        ),
{
    let g = h.set_at(k, k - 1, ieee::ZERO);
    assert forall|r: int| r != k implies subdiagonal(g, r) == #[trigger] subdiagonal(h, r) by {
        lemma_set_at_then_get_at(h, k, k - 1, ieee::ZERO, r, r - 1);
    }
    assert forall|r: int| lo < r <= hi implies ieee::equal(
        #[trigger] subdiagonal(g, r),
        ieee::ZERO,
    ) || (!ieee::at_most(ieee::cleared(subdiagonal(g, r)), floor) && (r - 1 <= lo || ieee::equal(
        subdiagonal(g, r - 1),
        ieee::ZERO,
    ))) by {
        lemma_set_at_then_get_at(h, k, k - 1, ieee::ZERO, r, r - 1);
        lemma_set_at_then_get_at(h, k, k - 1, ieee::ZERO, r - 1, r - 2);
        assert(ieee::equal(subdiagonal(h, r), ieee::ZERO) || (!ieee::at_most(
            ieee::cleared(subdiagonal(h, r)),
            floor,
        ) && (r - 1 <= lo || ieee::equal(subdiagonal(h, r - 1), ieee::ZERO))));
        if r == k && !h.has(k, k - 1) {
            assert(subdiagonal(g, r) == subdiagonal(h, r));
        }
    }
}

/// On a quasi-triangular window the driver never asks for a sweep: each
/// single row deflates by itself and each pair of rows is handed out to be
/// standardized, whatever the caller answers, as long as the caller hands
/// the rest of the window back quasi-triangular. Unless the caller calls an
/// entry negligible, `h` is left as it is but for the signs of zeros.
pub proof fn lemma_quasi_triangular_needs_no_sweep(
    d: Driver,
    event: Event,
    h: Grid,
    wr: Grid,
    wi: Grid,
)
    requires
        d.inv(),
        d.calm(h),
        d.answers(event),
        ieee::at_most(ieee::ZERO, d.smlnum),
    ensures
        ({
            let o = d.settle(event, h, wr, wi);
            &&& o.driver.calm(o.h)
            &&& !(o.request is Sweep)
            &&& o.request != Request::Continue
            &&& event != (Event::Judged { negligible: true }) ==> kept_but_for_signs_of_zeros(
                h,
                o.h,
            )
        }),
    decreases d.fuel(),
{
    let first = d.step_spec(event, h, wr, wi);
    let lo = d.ilo as int;
    let k = d.k as int;
    if d.phase == Phase::Scanning || d.phase == Phase::Judging {
        assert(quasi_triangular(h, lo, d.i - 1, d.smlnum));
        assert(quasi_triangular(h, lo, d.i - 2, d.smlnum));
        lemma_split_keeps_quasi(h, k, lo, d.i as int, d.smlnum);
        lemma_split_keeps_quasi(h, k, lo, d.i - 1, d.smlnum);
        lemma_split_keeps_quasi(h, k, lo, d.i - 2, d.smlnum);
    }
    match d.phase {
        Phase::Scanning => {
            if d.k > d.l && !d.plainly_negligible(h) {
                assert(first.driver.phase == Phase::Judging);
                assert(subdiagonal(h, k) == h.get_at(k, k - 1));
                assert(d.k == d.i);
            } else {
                assert(first == d.split(h, wr, wi));
                assert(d.k > d.ilo ==> ieee::equal(subdiagonal(h, k), ieee::ZERO)) by {
                    assert(subdiagonal(h, k) == h.get_at(k, k - 1));
                }
                assert(kept_but_for_signs_of_zeros(h, first.h));
            }
        },
        Phase::Judging => {
            assert(subdiagonal(h, k) == h.get_at(k, k - 1));
            assert(!ieee::equal(subdiagonal(h, k), ieee::ZERO));
            if event == (Event::Judged { negligible: true }) {
                assert(first == d.split(h, wr, wi));
            } else {
                assert(first.h == h);
                assert(first.driver.k == d.i - 1);
                assert(k - 1 <= lo || ieee::equal(subdiagonal(h, k - 1), ieee::ZERO));
            }
        },
        Phase::Standardizing => {
            assert(first.h == h);
        },
        _ => {},
    }
    assert(first.driver.calm(first.h));
    if first.request == Request::Continue {
        lemma_quasi_triangular_needs_no_sweep(first.driver, Event::Resume, first.h, first.wr, first.wi);
        let o = first.driver.settle(Event::Resume, first.h, first.wr, first.wi);
        assert(d.settle(event, h, wr, wi) == o);
        if event != (Event::Judged { negligible: true }) {
            assert(kept_but_for_signs_of_zeros(h, first.h));
            assert(kept_but_for_signs_of_zeros(first.h, o.h));
        }
    } else {
        assert(d.settle(event, h, wr, wi) == first);
    }
}

/// Whether the entries of `h` two and three rows below the diagonal, in
/// the rows and columns `lo..=hi`, are zeros of either sign.
pub open spec fn hessenberg(h: Grid, lo: int, hi: int) -> bool {
    forall|r: int, c: int|
        lo <= c && r <= hi && 2 <= r - c <= 3 ==> ieee::equal(
            #[trigger] h.get_at(r, c),
            ieee::ZERO,
        )
}

/// A run on a quasi-triangular window starts calm: the start leaves `h` as
/// it is but for the signs of zeros, and the scan then stands where
/// [`lemma_quasi_triangular_needs_no_sweep`] applies.
pub proof fn lemma_quasi_triangular_start_is_calm(
    wantt: bool,
    wantz: bool,
    n: i32,
    ilo: i32,
    ihi: i32,
    smlnum: u64,
    h: Grid,
    wr: Grid,
    wi: Grid,
)
    requires
        ilo < ihi ==> i32::MIN < ilo && ihi < i32::MAX,
        hessenberg(h, ilo as int, ihi as int),
        quasi_triangular(h, ilo as int, ihi as int, smlnum),
    ensures
        ({
            let b = Driver::begin_spec(wantt, wantz, n, ilo, ihi, smlnum, h, wr, wi);
            &&& b.driver.inv()
            &&& b.driver.calm(b.h)
            &&& b.driver.answers(Event::Resume) || b.request == Request::Done { info: 0 }
            &&& kept_but_for_signs_of_zeros(h, b.h)
        }),
{
    let b = Driver::begin_spec(wantt, wantz, n, ilo, ihi, smlnum, h, wr, wi);
    if n != 0 && ilo < ihi {
        let g = b.h;
        assert forall|o: int| 0 <= o < h.cells.len() && below_hessenberg(
            h,
            ilo as int,
            ihi - 1,
            ihi as int,
            o,
        ) implies ieee::equal(h.cells[o], ieee::ZERO) by {
            let j = choose|j: int|
                ilo <= j < ihi - 1 && #[trigger] below_in_column(h, j, ihi as int, o);
            if h.has(j + 2, j) && o == h.offset(j + 2, j) && j + 2 <= ihi {
                assert(ieee::equal(h.get_at(j + 2, j), ieee::ZERO));
            } else {
                assert(ieee::equal(h.get_at(j + 3, j), ieee::ZERO));
            }
        }
        assert(kept_but_for_signs_of_zeros(h, g));
        assert forall|r: int| subdiagonal(g, r) == #[trigger] subdiagonal(h, r) by {
            let o = h.offset(r, r - 1);
            if h.has(r, r - 1) && below_hessenberg(h, ilo as int, ihi - 1, ihi as int, o) {
                let j = choose|j: int|
                    ilo <= j < ihi - 1 && #[trigger] below_in_column(h, j, ihi as int, o);
                if h.has(j + 2, j) && o == h.offset(j + 2, j) {
                    lemma_offset_injective(h, r, r - 1, j + 2, j);
                } else {
                    lemma_offset_injective(h, r, r - 1, j + 3, j);
                }
            }
        }
        assert(quasi_triangular(g, ilo as int, ihi as int, smlnum)) by {
            assert forall|r: int| ilo < r <= ihi implies ieee::equal(
                #[trigger] subdiagonal(g, r),
                ieee::ZERO,
            ) || (!ieee::at_most(ieee::cleared(subdiagonal(g, r)), smlnum) && (r - 1 <= ilo
                || ieee::equal(subdiagonal(g, r - 1), ieee::ZERO))) by {
                assert(subdiagonal(g, r) == subdiagonal(h, r));
                assert(subdiagonal(g, r - 1) == subdiagonal(h, r - 1));
            }
        }
    }
}

/// Sets to positive zero every entry of the window `ilo..=ihi` that lies two
/// or three rows below the diagonal.
pub fn clear_below_subdiagonal(h: &mut FortranArray, ilo: i32, ihi: i32)
    requires
        i32::MIN < ilo,
        ihi < i32::MAX,
    ensures
        final(h)@ == hessenberg_part(old(h)@, ilo as int, ihi as int),
{
    let ghost h0 = h@;
    let mut j: i32 = ilo;
    if ihi < ilo || (ihi as i64) - (ilo as i64) < 2 {
        assert(h@.cells =~= hessenberg_part(h0, ilo as int, ihi as int).cells);
        return;
    }
    while j <= ihi - 3
        invariant
            i32::MIN < ilo <= j <= ihi - 2,
            ihi < i32::MAX,
            h@.rows == h0.rows,
            h@.cols == h0.cols,
            h@.cells.len() == h0.cells.len(),
            forall|o: int|
                0 <= o < h0.cells.len() ==> h@.cells[o] == (if below_hessenberg(
                    h0,
                    ilo as int,
                    j as int,
                    ihi as int,
                    o,
                ) {
                    ieee::ZERO
                } else {
                    h0.cells[o]
                }),
        decreases ihi - j,
    {
        let ghost before = h@;
        h.set_at(j + 2, j, ieee::ZERO);
        h.set_at(j + 3, j, ieee::ZERO);
        proof {
            assert forall|o: int| 0 <= o < h0.cells.len() implies h@.cells[o] == (
            if below_hessenberg(h0, ilo as int, j + 1, ihi as int, o) {
                ieee::ZERO
            } else {
                h0.cells[o]
            }) by {
                lemma_zone_grows(h0, ilo as int, j as int, ihi as int, o);
                assert(before.offset(j + 2, j as int) == h0.offset(j + 2, j as int));
                assert(before.offset(j + 3, j as int) == h0.offset(j + 3, j as int));
            }
        }
        j = j + 1;
    }
    let ghost before = h@;
    h.set_at(ihi, ihi - 2, ieee::ZERO);
    proof {
        assert forall|o: int| 0 <= o < h0.cells.len() implies h@.cells[o] == (
        if below_hessenberg(h0, ilo as int, ihi - 1, ihi as int, o) {
            ieee::ZERO
        } else {
            h0.cells[o]
        }) by {
            lemma_zone_grows(h0, ilo as int, ihi - 2, ihi as int, o);
            assert(before.offset(ihi as int, ihi - 2) == h0.offset(ihi as int, ihi - 2));
        }
        assert(h@.cells =~= hessenberg_part(h0, ilo as int, ihi as int).cells);
    }
}

/// Adding column `hi` to the zone adds its entries two and three rows below
/// the diagonal, as far as their rows go up to `ihi`.
proof fn lemma_zone_grows(h: Grid, lo: int, hi: int, ihi: int, o: int)
    requires
        lo <= hi,
    ensures
        below_hessenberg(h, lo, hi + 1, ihi, o) <==> below_hessenberg(h, lo, hi, ihi, o)
            || below_in_column(h, hi, ihi, o),
{
    if below_hessenberg(h, lo, hi + 1, ihi, o) {
        let j = choose|j: int| lo <= j < hi + 1 && #[trigger] below_in_column(h, j, ihi, o);
        if j < hi {
            assert(below_hessenberg(h, lo, hi, ihi, o));
        }
    }
    if below_hessenberg(h, lo, hi, ihi, o) {
        let j = choose|j: int| lo <= j < hi && #[trigger] below_in_column(h, j, ihi, o);
        assert(lo <= j < hi + 1 && below_in_column(h, j, ihi, o));
    }
    if below_in_column(h, hi, ihi, o) {
        assert(lo <= hi < hi + 1 && below_in_column(h, hi, ihi, o));
    }
}

} // verus!
