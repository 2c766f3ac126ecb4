//! The shared history handle.
//!
//! Exactly one writer — the analyzer, on the capture thread — and one
//! reader/trimmer — the renderer, on the display thread — use the history
//! concurrently. Access is serialized per operation by a single lock over
//! the whole structure, never per row, because appends and trims both touch
//! the container's extent. Each operation here acquires the lock once, does
//! all its work, and releases: no state in which a row is half written ever
//! exists under the lock, so a snapshot can only reflect completed appends.
//!
//! The lock's invariant carries the shape contract: every row ever stored
//! is a finished spectrum of exactly `N_FFT / 2` bins.

use vstd::prelude::*;
use vstd::rwlock::{RwLock, RwLockPredicate};

use crate::analyzer::analyze_and_append;
use crate::history::History;
use crate::render::{
    layout_cells, spec_cell_width, spec_hue, spec_target_rows, target_rows, Cell,
};
use crate::{N_FFT, TIME_SCALE};

verus! {

/// The invariant the lock maintains of every state it ever stores: all rows
/// are finished spectra of `N_FFT / 2` bins.
pub struct SpectrumRows;

impl RwLockPredicate<History> for SpectrumRows {
    open spec fn inv(self, h: History) -> bool {
        forall|i: int| 0 <= i < h@.len() ==> (#[trigger] h@[i]).len() == N_FFT / 2
    }
}

/// The one handle to the history that the capture setup and the render
/// setup share: a lock over the whole structure, constructed once and
/// injected into both sides.
pub struct SharedHistory {
    lock: RwLock<History, SpectrumRows>,
}

impl SharedHistory {
    /// Whether this handle's lock carries the spectrum-shape invariant; true
    /// of every handle `new` builds.
    pub closed spec fn wf(&self) -> bool {
        self.lock.pred() == SpectrumRows
    }

    /// A fresh handle around an empty history.
    pub fn new() -> (s: SharedHistory)
        ensures
            s.wf(),
    {
        let h = History::new();
        SharedHistory { lock: RwLock::new(h, Ghost(SpectrumRows)) }
    }

    /// The capture path: analyzes one frame of bin powers and appends its
    /// spectrum, all under one exclusive acquisition, so no reader ever
    /// observes the row partially written. Holds the lock for the one
    /// append only — the capture thread never scans the history.
    pub fn append_frame(&self, power: &Vec<u64>)
        requires
            self.wf(),
            power@.len() == N_FFT,
    {
        let (mut h, handle) = self.lock.acquire_write();
        let ghost before = h@;
        analyze_and_append(&mut h, power);
        proof {
            assert forall|i: int| 0 <= i < h@.len() implies (#[trigger] h@[i]).len() == N_FFT
                / 2 by {
                if i < before.len() {
                    assert(h@[i] == before[i]);
                }
            }
        }
        handle.release_write(h);
    }

    /// The display path: one tick's whole read side under one exclusive
    /// acquisition — trim the history to the viewport's row budget, then
    /// lay every surviving value out as a cell. At most the budget in rows
    /// comes back, every row `N_FFT / 2` cells, on the exact grid, with
    /// every hue in the hue domain.
    pub fn render_tick(&self, viewport_height: i32, viewport_width_mpx: u64) -> (cells: Vec<
        Vec<Cell>,
    >)
        requires
            self.wf(),
            viewport_width_mpx <= u64::MAX / 2,
        ensures
            cells@.len() <= spec_target_rows(viewport_height as int),
            forall|i: int| 0 <= i < cells@.len() ==> (#[trigger] cells@[i])@.len() == N_FFT / 2,
            forall|i: int, j: int|
                0 <= i < cells@.len() && 0 <= j < cells@[i]@.len() ==> {
                    let c = #[trigger] cells@[i]@[j];
                    c.x_mpx == j * spec_cell_width(viewport_width_mpx as int) && c.y_px == i * (
                    TIME_SCALE as int) && c.w_mpx == spec_cell_width(viewport_width_mpx as int)
                        && c.h_px == TIME_SCALE && 0 <= c.hue <= 10000
                },
    {
        let t = target_rows(viewport_height);
        let (mut h, handle) = self.lock.acquire_write();
        let ghost before = h@;
        h.trim_to(t);
        proof {
            assert forall|i: int| 0 <= i < h@.len() implies (#[trigger] h@[i]).len() == N_FFT
                / 2 by {
                assert(h@[i] == before[before.len() - h@.len() + i]);
            }
        }
        let snapshot = h.snapshot_for_render();
        proof {
            assert forall|i: int| 0 <= i < snapshot@.len() implies (#[trigger] snapshot@[i])@.len()
                <= N_FFT / 2 by {
                assert(snapshot@[i]@ == h@[i]);
            }
        }
        let cells = layout_cells(snapshot, viewport_width_mpx);
        proof {
            assert forall|i: int| 0 <= i < cells@.len() implies (#[trigger] cells@[i])@.len()
                == N_FFT / 2 by {
                assert(snapshot@[i]@ == h@[i]);
            }
        }
        handle.release_write(h);
        cells
    }
}

} // verus!
