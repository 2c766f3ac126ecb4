//! The spectral analyzer.
//!
//! One captured frame of `N_FFT` samples is turned by the frequency-domain
//! transform — a collaborator at the edge, outside this library — into
//! `N_FFT` bins of squared magnitude. The analyzer takes those bin powers as
//! plain fixed-point values (units of 1e-10 of full scale, see `decibel`),
//! keeps the first half — the only non-redundant bins for real input — and
//! converts each to a whole-decibel value. The resulting spectrum row is
//! appended at the tail of the shared history; the analyzer never reads or
//! trims it.

use vstd::prelude::*;

use crate::decibel::{spec_db, db_of_power, lemma_db_monotone};
use crate::history::History;
use crate::N_FFT;

verus! {

/// The spectrum of a frame whose bin powers are `power`: the decibel value
/// of each bin of the first half.
pub open spec fn spec_spectrum(power: Seq<u64>) -> Seq<int> {
    Seq::new(power.len() / 2, |j: int| spec_db(power[j] as nat))
}

/// One frame's magnitude spectrum in whole decibels.
///
/// A frame of exactly `N_FFT` bin powers yields exactly `N_FFT / 2` values;
/// a frame of any other length is a contract violation and is refused here
/// rather than silently mis-analyzed.
pub fn analyze(power: &Vec<u64>) -> (s: Vec<i32>)
    requires
        power@.len() == N_FFT,
    ensures
        s@.len() == N_FFT / 2,
        forall|j: int| 0 <= j < s@.len() ==> s@[j] == spec_db(power@[j] as nat),
        s@.map_values(|v: i32| v as int) == spec_spectrum(power@),
{
    let mut s: Vec<i32> = Vec::new();
    let mut j: usize = 0;
    while j < N_FFT / 2
        invariant
            j <= N_FFT / 2,
            power@.len() == N_FFT,
            s@.len() == j,
            forall|k: int| 0 <= k < j ==> s@[k] == spec_db(power@[k] as nat),
        decreases N_FFT / 2 - j,
    {
        s.push(db_of_power(power[j]));
        j = j + 1;
    }
    proof {
        assert(s@.map_values(|v: i32| v as int) =~= spec_spectrum(power@));
    }
    s
}

/// Analyzes one frame and appends its spectrum at the tail of the history,
/// in one step of the capture path: the history grows by exactly that row
/// and the earlier rows stand unchanged.
pub fn analyze_and_append(h: &mut History, power: &Vec<u64>)
    requires
        power@.len() == N_FFT,
    ensures
        final(h)@ == old(h)@.push(final(h)@.last()),
        final(h)@.len() == old(h)@.len() + 1,
        final(h)@.last().len() == N_FFT / 2,
        forall|j: int| 0 <= j < N_FFT / 2 ==> final(h)@.last()[j] == spec_db(power@[j] as nat),
{
    let s = analyze(power);
    h.append(s);
}

/// The decibel scale is monotone bin-wise: of two frames whose bin powers
/// dominate each other element-wise, the dominating frame's spectrum is at
/// least as loud in every bin.
pub proof fn lemma_spectrum_monotone(a: Seq<u64>, b: Seq<u64>)
    requires
        a.len() == b.len(),
        forall|j: int| 0 <= j < a.len() ==> b[j] <= a[j],
    ensures
        spec_spectrum(a).len() == spec_spectrum(b).len(),
        forall|j: int| 0 <= j < spec_spectrum(a).len()
            ==> spec_spectrum(b)[j] <= spec_spectrum(a)[j],
{
    assert forall|j: int| 0 <= j < spec_spectrum(a).len() implies spec_spectrum(b)[j]
        <= spec_spectrum(a)[j] by {
        lemma_db_monotone(b[j] as nat, a[j] as nat);
    }
}

} // verus!
