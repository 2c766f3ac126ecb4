//! The rolling spectrogram history.
//!
//! An ordered sequence of spectrum rows, oldest first: the analyzer appends
//! one row at the tail per frame, the renderer trims stale rows from the head
//! once per display tick and reads the rest. Rows are never edited in place
//! and never removed anywhere but the head, so the surviving rows always keep
//! their chronological order. The two callers share the structure behind
//! one lock over the whole of it (see the shared handle); every operation
//! here works on the whole structure, so a caller that serializes the calls
//! never observes a partially applied append or trim.

use vstd::prelude::*;

verus! {

/// The time-ordered rows of the spectrogram, oldest first.
pub struct History {
    rows: Vec<Vec<i32>>,
}

/// What trimming a row sequence to `target` leaves: the newest `target` rows
/// (all of them when the history is already short enough), still oldest
/// first. A negative target keeps nothing.
pub open spec fn trimmed(s: Seq<Seq<i32>>, target: int) -> Seq<Seq<i32>> {
    let keep = if target < 0 {
        0
    } else if target > s.len() {
        s.len() as int
    } else {
        target
    };
    s.skip(s.len() - keep)
}

/// One operation on the history: the analyzer's append of a finished row at
/// the tail, or the renderer's trim of the head to a target length.
pub enum HistoryOp {
    Append(Vec<i32>),
    Trim(usize),
}

/// The effect of one operation on the row sequence: the two arms are
/// exactly what `append` and `trim_to` ensure of the history's view.
pub open spec fn apply_op(s: Seq<Seq<i32>>, op: HistoryOp) -> Seq<Seq<i32>> {
    match op {
        HistoryOp::Append(row) => s.push(row@),
        HistoryOp::Trim(t) => trimmed(s, t as int),
    }
}

/// The row sequence after a whole run of operations, earliest first.
pub open spec fn apply_ops(s: Seq<Seq<i32>>, ops: Seq<HistoryOp>) -> Seq<Seq<i32>>
    decreases ops.len(),
{
    if ops.len() == 0 {
        s
    } else {
        apply_ops(apply_op(s, ops[0]), ops.drop_first())
    }
}

/// Every row a run of operations appends, in order of appending.
pub open spec fn appended(ops: Seq<HistoryOp>) -> Seq<Seq<i32>>
    decreases ops.len(),
{
    if ops.len() == 0 {
        Seq::empty()
    } else {
        match ops[0] {
            HistoryOp::Append(row) => seq![row@] + appended(ops.drop_first()),
            HistoryOp::Trim(_) => appended(ops.drop_first()),
        }
    }
}

/// Helper for the append-only law, generalized over a history that is
/// already a suffix of some stream of rows: appends extend the stream at
/// the tail and trims only move the suffix's start forward, so a suffix it
/// remains.
proof fn lemma_ops_preserve_suffix(stream: Seq<Seq<i32>>, k: int, ops: Seq<HistoryOp>)
    requires
        0 <= k <= stream.len(),
    ensures
        exists|k2: int|
            0 <= k2 <= (stream + appended(ops)).len() && apply_ops(stream.skip(k), ops) == (stream
                + appended(ops)).skip(k2),
    decreases ops.len(),
{
    let s = stream.skip(k);
    if ops.len() == 0 {
        assert(stream + appended(ops) =~= stream);
        assert(apply_ops(s, ops) == (stream + appended(ops)).skip(k));
    } else {
        let rest = ops.drop_first();
        match ops[0] {
            HistoryOp::Append(row) => {
                let stream2 = stream.push(row@);
                assert(s.push(row@) =~= stream2.skip(k));
                lemma_ops_preserve_suffix(stream2, k, rest);
                let k2 = choose|k2: int|
                    0 <= k2 <= (stream2 + appended(rest)).len() && apply_ops(
                        stream2.skip(k),
                        rest,
                    ) == (stream2 + appended(rest)).skip(k2);
                assert(stream2 + appended(rest) =~= stream + appended(ops));
                assert(apply_ops(s, ops) == (stream + appended(ops)).skip(k2));
            },
            HistoryOp::Trim(t) => {
                let keep = if (t as int) > s.len() {
                    s.len() as int
                } else {
                    t as int
                };
                let j = s.len() - keep;
                assert(trimmed(s, t as int) =~= stream.skip(k + j));
                lemma_ops_preserve_suffix(stream, k + j, rest);
                let k2 = choose|k2: int|
                    0 <= k2 <= (stream + appended(rest)).len() && apply_ops(
                        stream.skip(k + j),
                        rest,
                    ) == (stream + appended(rest)).skip(k2);
                assert(appended(ops) == appended(rest));
                assert(apply_ops(s, ops) == (stream + appended(ops)).skip(k2));
            },
        }
    }
}

/// Append-only at the tail: however appends and trims interleave, the
/// history that results is a contiguous suffix of the full stream of rows
/// appended along the way — surviving rows keep their relative
/// (chronological) order, and only the oldest are ever dropped.
pub proof fn lemma_append_only_at_tail(ops: Seq<HistoryOp>)
    ensures
        exists|k: int|
            0 <= k <= appended(ops).len() && apply_ops(Seq::empty(), ops) == appended(ops).skip(k),
{
    lemma_ops_preserve_suffix(Seq::empty(), 0, ops);
    let k2 = choose|k2: int|
        0 <= k2 <= (Seq::<Seq<i32>>::empty() + appended(ops)).len() && apply_ops(
            Seq::<Seq<i32>>::empty().skip(0),
            ops,
        ) == (Seq::<Seq<i32>>::empty() + appended(ops)).skip(k2);
    assert(Seq::<Seq<i32>>::empty() + appended(ops) =~= appended(ops));
    assert(Seq::<Seq<i32>>::empty().skip(0) =~= Seq::<Seq<i32>>::empty());
    assert(apply_ops(Seq::empty(), ops) == appended(ops).skip(k2));
}

/// Trim correctness: trimming to a non-negative target leaves
/// min(L, target) rows, and they are exactly the newest — row `i` of the
/// result is row `i + (L - result_len)` of the original, so precisely the
/// `L - target` oldest rows are removed when the history was longer.
pub proof fn lemma_trim_correct(s: Seq<Seq<i32>>, target: int)
    requires
        0 <= target,
    ensures
        trimmed(s, target).len() == if s.len() <= target {
            s.len() as int
        } else {
            target
        },
        forall|i: int|
            0 <= i < trimmed(s, target).len() ==> trimmed(s, target)[i] == s[s.len() - trimmed(
                s,
                target,
            ).len() + i],
{
}

/// Over-trimming is idempotent: a second trim to the same target, with no
/// append in between, changes nothing.
pub proof fn lemma_trim_idempotent(s: Seq<Seq<i32>>, target: int)
    ensures
        trimmed(trimmed(s, target), target) == trimmed(s, target),
{
    assert(trimmed(trimmed(s, target), target) =~= trimmed(s, target));
}

impl View for History {
    type V = Seq<Seq<i32>>;

    closed spec fn view(&self) -> Seq<Seq<i32>> {
        self.rows@.map_values(|r: Vec<i32>| r@)
    }
}

impl History {
    /// A history starts empty.
    pub fn new() -> (h: History)
        ensures
            h@ == Seq::<Seq<i32>>::empty(),
    {
        let h = History { rows: Vec::new() };
        proof {
            assert(h@ =~= Seq::<Seq<i32>>::empty());
        }
        h
    }

    /// Number of rows currently held.
    pub fn len(&self) -> (n: usize)
        ensures
            n == self@.len(),
    {
        self.rows.len()
    }

    /// Adds one spectrum row at the tail (the newest end). Never rejects:
    /// growth is bounded by the renderer's trimming, not here.
    pub fn append(&mut self, row: Vec<i32>)
        ensures
            final(self)@ == old(self)@.push(row@),
    {
        let ghost before = self@;
        self.rows.push(row);
        proof {
            assert(self@ =~= before.push(row@));
        }
    }

    /// Removes rows from the head (the oldest end) until at most `target`
    /// remain; a no-op when the history is already short enough.
    pub fn trim_to(&mut self, target: usize)
        ensures
            final(self)@ == trimmed(old(self)@, target as int),
    {
        let ghost before = self@;
        if self.rows.len() > target {
            let excess = self.rows.len() - target;
            let mut k: usize = 0;
            while k < excess
                invariant
                    k <= excess,
                    excess <= before.len(),
                    self@ =~= before.skip(k as int),
                decreases excess - k,
            {
                let ghost mid = self@;
                proof {
                    assert(self.rows@.len() == self@.len());
                    assert(self@.len() == before.len() - k);
                }
                self.rows.remove(0);
                proof {
                    assert(self@ =~= mid.drop_first());
                    assert(self@ =~= before.skip(k + 1));
                }
                k = k + 1;
            }
            proof {
                assert(self@ =~= trimmed(before, target as int));
            }
        } else {
            proof {
                assert(self@ =~= trimmed(before, target as int));
            }
        }
    }

    /// The current full row sequence, for read-only iteration by the
    /// renderer. The borrow reflects every completed append and trim and
    /// nothing partial.
    pub fn snapshot_for_render(&self) -> (r: &Vec<Vec<i32>>)
        ensures
            r@.len() == self@.len(),
            forall|i: int| 0 <= i < r@.len() ==> r@[i]@ == self@[i],
    {
        &self.rows
    }
}

} // verus!
