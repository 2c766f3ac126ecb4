//! Tests of the pipeline: analyzer, history discipline, renderer layout,
//! and an end-to-end run, including one through the real frequency-domain
//! transform.

use easyfft::dyn_size::DynFft;

use spectrogram::analyzer::{analyze, analyze_and_append};
use spectrogram::history::History;
use spectrogram::render::{layout_cells, needs_resume, trim_for_viewport};
use spectrogram::shared::SharedHistory;
use spectrogram::N_FFT;

fn row(tag: i32) -> Vec<i32> {
    vec![tag]
}

fn tags(h: &History) -> Vec<i32> {
    h.snapshot_for_render().iter().map(|r| r[0]).collect()
}

#[test]
fn spectrum_has_half_the_bins() {
    let frame: Vec<u64> = vec![0; N_FFT];
    let s = analyze(&frame);
    assert_eq!(s.len(), N_FFT / 2);
}

#[test]
fn history_starts_empty() {
    let h = History::new();
    assert_eq!(h.len(), 0);
    assert!(h.snapshot_for_render().is_empty());
}

#[test]
fn appends_keep_order_across_trims() {
    let mut h = History::new();
    for t in 1..=5 {
        h.append(row(t));
    }
    h.trim_to(3);
    assert_eq!(tags(&h), vec![3, 4, 5]);
    h.append(row(6));
    assert_eq!(tags(&h), vec![3, 4, 5, 6]);
    h.trim_to(2);
    assert_eq!(tags(&h), vec![5, 6]);
}

#[test]
fn trim_removes_exactly_the_oldest() {
    let mut h = History::new();
    for t in 1..=5 {
        h.append(row(t));
    }
    h.trim_to(2);
    assert_eq!(h.len(), 2);
    assert_eq!(tags(&h), vec![4, 5]);
}

#[test]
fn trim_to_larger_target_is_a_noop() {
    let mut h = History::new();
    for t in 1..=3 {
        h.append(row(t));
    }
    h.trim_to(10);
    assert_eq!(tags(&h), vec![1, 2, 3]);
}

#[test]
fn trim_to_zero_empties() {
    let mut h = History::new();
    for t in 1..=3 {
        h.append(row(t));
    }
    h.trim_to(0);
    assert_eq!(h.len(), 0);
}

#[test]
fn over_trim_twice_equals_once() {
    let mut once = History::new();
    let mut twice = History::new();
    for t in 1..=7 {
        once.append(row(t));
        twice.append(row(t));
    }
    once.trim_to(4);
    twice.trim_to(4);
    twice.trim_to(4);
    assert_eq!(tags(&once), tags(&twice));
    assert_eq!(tags(&twice), vec![4, 5, 6, 7]);
}

#[test]
fn snapshot_reflects_completed_appends_only() {
    let mut h = History::new();
    for k in 0..10 {
        let snap = h.snapshot_for_render();
        assert_eq!(snap.len(), k);
        for r in snap.iter() {
            assert_eq!(r.len(), 1);
        }
        h.append(row(k as i32));
    }
}

#[test]
fn silence_end_to_end() {
    let mut h = History::new();
    let frame: Vec<u64> = vec![0; N_FFT];
    for _ in 0..600 {
        analyze_and_append(&mut h, &frame);
    }
    trim_for_viewport(&mut h, 500);
    assert_eq!(h.len(), 100);
    let snap = h.snapshot_for_render();
    for r in snap.iter() {
        assert_eq!(r.len(), N_FFT / 2);
        for &v in r.iter() {
            assert_eq!(v, -100);
        }
    }
}

#[test]
fn negative_viewport_trims_everything() {
    let mut h = History::new();
    for t in 1..=3 {
        h.append(row(t));
    }
    trim_for_viewport(&mut h, -40);
    assert_eq!(h.len(), 0);
}

#[test]
fn sine_tone_louder_at_its_bin() {
    let louder = sine_frame_spectrum(1.0);
    let softer = sine_frame_spectrum(0.5);
    assert_eq!(louder[10], 48);
    assert_eq!(softer[10], 42);
    assert!(louder[10] > softer[10]);
    for j in 0..N_FFT / 2 {
        assert!(louder[j] >= softer[j]);
    }
}

fn sine_frame_spectrum(amplitude: f64) -> Vec<i32> {
    let frame: Vec<f32> = (0..N_FFT)
        .map(|n| {
            (amplitude * (2.0 * std::f64::consts::PI * 10.0 * n as f64 / N_FFT as f64).sin())
                as f32
        })
        .collect();
    let bins = frame[..].fft();
    let power: Vec<u64> = bins
        .iter()
        .map(|c| {
            let p = (c.norm_sqr() as f64 * 1e10).round();
            if p.is_finite() && p >= 0.0 {
                p.min(u64::MAX as f64) as u64
            } else {
                0
            }
        })
        .collect();
    analyze(&power)
}

#[test]
fn shared_handle_appends_and_renders_whole_rows() {
    let s = SharedHistory::new();
    let frame: Vec<u64> = vec![0; N_FFT];
    for _ in 0..7 {
        s.append_frame(&frame);
    }
    // A 25-pixel viewport holds 5 rows: the 2 oldest must be trimmed.
    let cells = s.render_tick(25, 256_000);
    assert_eq!(cells.len(), 5);
    for (i, r) in cells.iter().enumerate() {
        assert_eq!(r.len(), N_FFT / 2);
        for (j, c) in r.iter().enumerate() {
            assert_eq!(c.hue, 0);
            assert_eq!(c.w_mpx, 1_000);
            assert_eq!(c.h_px, 5);
            assert_eq!(c.x_mpx, 1_000 * j as u64);
            assert_eq!(c.y_px, 5 * i as u64);
        }
    }
}

#[test]
fn paused_stream_owes_a_resume() {
    assert!(needs_resume(true));
    assert!(!needs_resume(false));
}

#[test]
fn empty_snapshot_lays_out_no_cells() {
    let snapshot: Vec<Vec<i32>> = Vec::new();
    assert!(layout_cells(&snapshot, 256_000).is_empty());
}

#[test]
fn cells_follow_the_grid() {
    let snapshot: Vec<Vec<i32>> = vec![vec![-100, 0], vec![-50]];
    let cells = layout_cells(&snapshot, 256_000);
    assert_eq!(cells.len(), 2);
    assert_eq!(cells[0].len(), 2);
    assert_eq!(cells[1].len(), 1);

    assert_eq!(cells[0][0].x_mpx, 0);
    assert_eq!(cells[0][0].y_px, 0);
    assert_eq!(cells[0][0].w_mpx, 1_000);
    assert_eq!(cells[0][0].h_px, 5);
    assert_eq!(cells[0][0].hue, 0);

    assert_eq!(cells[0][1].x_mpx, 1_000);
    assert_eq!(cells[0][1].hue, 10_000);

    assert_eq!(cells[1][0].y_px, 5);
    assert_eq!(cells[1][0].hue, 5_000);
}
