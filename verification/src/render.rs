//! The renderer mapping.
//!
//! Once per display tick the renderer trims the history to what the viewport
//! can show, then turns every surviving spectrum value into one colored
//! cell. The drawing surface itself belongs to the windowing runtime at the
//! edge; this module computes, on fixed-point integers, everything the
//! drawing calls need: the row budget of a viewport, the hue of a decibel
//! value, and the position and size of every cell. Horizontal lengths are in
//! millipixels (1/1000 px) and hues in 1/10000 of a turn, so the mapping is
//! exact.

use vstd::prelude::*;

use crate::history::{History, trimmed};
use crate::{N_FFT, TIME_SCALE};
use vstd::arithmetic::div_mod::{lemma_fundamental_div_mod, lemma_div_is_ordered};
use vstd::arithmetic::mul::lemma_mul_upper_bound;

verus! {

/// How many rows a viewport of the given height (in pixels) can show: one
/// row per `TIME_SCALE` pixels, rounded down, and none at all for an empty
/// or inverted viewport.
pub open spec fn spec_target_rows(viewport_height: int) -> int {
    if viewport_height <= 0 {
        0
    } else {
        viewport_height / (TIME_SCALE as int)
    }
}

/// The row budget of a viewport `viewport_height` pixels tall.
pub fn target_rows(viewport_height: i32) -> (t: usize)
    ensures
        t == spec_target_rows(viewport_height as int),
{
    if viewport_height <= 0 {
        0
    } else {
        (viewport_height as usize) / TIME_SCALE
    }
}

/// The once-per-tick trim: drops the stale head of the history so that at
/// most the viewport's row budget remains. A zero or negative viewport
/// height trims everything rather than failing.
pub fn trim_for_viewport(h: &mut History, viewport_height: i32)
    ensures
        final(h)@ == trimmed(old(h)@, spec_target_rows(viewport_height as int)),
{
    let t = target_rows(viewport_height);
    h.trim_to(t);
}

/// The display loop's stream reconciliation, run once every tick: the
/// capture stream can report itself paused after a driver hiccup, and the
/// tick then owes the driver a resume request — exactly when the stream is
/// paused, so re-running the step is cheap and idempotent and never fatal.
pub fn needs_resume(stream_paused: bool) -> (resume: bool)
    ensures
        resume == stream_paused,
{
    stream_paused
}

/// The hue of a decibel value, in 1/10000 of a turn: `1 + db/100` of a
/// turn, clamped to the hue domain [0, 1]. -100 dB is hue 0, 0 dB is hue 1;
/// values outside [-100, 0] dB clamp to the nearer end.
pub open spec fn spec_hue(db: int) -> int {
    let raw = 10000 + 100 * db;
    if raw < 0 {
        0
    } else if raw > 10000 {
        10000
    } else {
        raw
    }
}

/// Hue of one decibel value, in 1/10000 of a turn; saturation and lightness
/// are fixed by the renderer (full and half).
pub fn hue_of_db(db: i32) -> (h: u32)
    ensures
        h == spec_hue(db as int),
{
    let raw: i64 = 10000 + 100 * (db as i64);
    if raw < 0 {
        0
    } else if raw > 10000 {
        10000
    } else {
        raw as u32
    }
}

/// The width of one cell in millipixels: the viewport split over the
/// `N_FFT` samples, doubled — one `viewport_width / (N_FFT / 2)` step per
/// bin, so the `N_FFT / 2` bins of a row span the viewport exactly once.
pub open spec fn spec_cell_width(viewport_width: int) -> int {
    viewport_width / (N_FFT as int) * 2
}

/// Cell width in millipixels for a viewport `viewport_width_mpx` millipixels
/// wide.
pub fn cell_width_mpx(viewport_width_mpx: u64) -> (w: u64)
    ensures
        w == spec_cell_width(viewport_width_mpx as int),
{
    let q: u64 = viewport_width_mpx / (N_FFT as u64);
    proof {
        lemma_fundamental_div_mod(viewport_width_mpx as int, 512);
    }
    q * 2
}

/// One rendered cell: its top-left position, its size, and its hue.
/// Horizontal lengths are millipixels, vertical lengths whole pixels, hue in
/// 1/10000 of a turn.
#[derive(Clone, Copy, Debug, PartialEq, Eq, Structural)]
pub struct Cell {
    pub x_mpx: u64,
    pub y_px: u64,
    pub w_mpx: u64,
    pub h_px: u64,
    pub hue: u32,
}

/// The full layout of a snapshot: one cell per spectrum value, row `i`
/// (oldest first) `i * TIME_SCALE` pixels up, bin `j` at `j` cell widths,
/// every cell one cell width wide and `TIME_SCALE` pixels tall, colored by
/// its decibel value.
pub fn layout_cells(snapshot: &Vec<Vec<i32>>, viewport_width_mpx: u64) -> (cells: Vec<
    Vec<Cell>,
>)
    requires
        snapshot@.len() * (TIME_SCALE as int) <= u64::MAX,
        viewport_width_mpx <= u64::MAX / 2,
        forall|i: int| 0 <= i < snapshot@.len() ==> snapshot@[i]@.len() <= N_FFT / 2,
    ensures
        cells@.len() == snapshot@.len(),
        forall|i: int| 0 <= i < cells@.len() ==> cells@[i]@.len() == snapshot@[i]@.len(),
        forall|i: int, j: int|
            0 <= i < cells@.len() && 0 <= j < cells@[i]@.len() ==> {
                let c = #[trigger] cells@[i]@[j];
                c.x_mpx == j * spec_cell_width(viewport_width_mpx as int) && c.y_px == i * (
                TIME_SCALE as int) && c.w_mpx == spec_cell_width(viewport_width_mpx as int)
                    && c.h_px == TIME_SCALE && c.hue == spec_hue(snapshot@[i]@[j] as int)
            },
{
    let cw = cell_width_mpx(viewport_width_mpx);
    proof {
        lemma_div_is_ordered(viewport_width_mpx as int, u64::MAX as int / 2, 512);
    }
    let mut cells: Vec<Vec<Cell>> = Vec::new();
    let mut i: usize = 0;
    while i < snapshot.len()
        invariant
            i <= snapshot@.len(),
            snapshot@.len() * (TIME_SCALE as int) <= u64::MAX,
            viewport_width_mpx <= u64::MAX / 2,
            cw == spec_cell_width(viewport_width_mpx as int),
            cw <= u64::MAX / 256,
            forall|k: int| 0 <= k < snapshot@.len() ==> snapshot@[k]@.len() <= N_FFT / 2,
            cells@.len() == i,
            forall|k: int| 0 <= k < i ==> cells@[k]@.len() == snapshot@[k]@.len(),
            forall|k: int, j: int|
                0 <= k < i && 0 <= j < cells@[k]@.len() ==> {
                    let c = #[trigger] cells@[k]@[j];
                    c.x_mpx == j * spec_cell_width(viewport_width_mpx as int) && c.y_px == k * (
                    TIME_SCALE as int) && c.w_mpx == spec_cell_width(viewport_width_mpx as int)
                        && c.h_px == TIME_SCALE && c.hue == spec_hue(snapshot@[k]@[j] as int)
                },
        decreases snapshot@.len() - i,
    {
        let row = &snapshot[i];
        proof {
            lemma_mul_upper_bound(
                i as int,
                snapshot@.len() as int,
                TIME_SCALE as int,
                TIME_SCALE as int,
            );
        }
        let y: u64 = (i as u64) * (TIME_SCALE as u64);
        let mut out: Vec<Cell> = Vec::new();
        let mut j: usize = 0;
        while j < row.len()
            invariant
                j <= row@.len(),
                row@.len() <= N_FFT / 2,
                cw == spec_cell_width(viewport_width_mpx as int),
                cw <= u64::MAX / 256,
                y <= u64::MAX,
                out@.len() == j,
                forall|l: int|
                    0 <= l < j ==> {
                        let c = #[trigger] out@[l];
                        c.x_mpx == l * spec_cell_width(viewport_width_mpx as int) && c.y_px == y
                            && c.w_mpx == spec_cell_width(viewport_width_mpx as int) && c.h_px
                            == TIME_SCALE && c.hue == spec_hue(row@[l] as int)
                    },
            decreases row@.len() - j,
        {
            proof {
                lemma_mul_upper_bound(j as int, 255, cw as int, u64::MAX as int / 256);
            }
            let c = Cell {
                x_mpx: (j as u64) * cw,
                y_px: y,
                w_mpx: cw,
                h_px: TIME_SCALE as u64,
                hue: hue_of_db(row[j]),
            };
            out.push(c);
            j = j + 1;
        }
        cells.push(out);
        i = i + 1;
    }
    cells
}

} // verus!
