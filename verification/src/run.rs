//! The buzz-order state for one round: who buzzed, in arrival order, and the
//! host's selection cursor. A `Run` is single-writer, owned by one room, and
//! fully replaced (never mutated incrementally) on `Clear`.

use vstd::prelude::*;

verus! {

/// The outcome of recording one buzz.
#[derive(Copy, Clone, Debug, PartialEq, Eq, Structural)]
pub enum BuzzResult {
    /// The participant already buzzed this round; nothing changes.
    Already,
    /// First buzz of the round: this participant is the round winner.
    First,
    /// A later buzz, with the elapsed milliseconds since the first buzz.
    TimeDifference(u64),
}

/// The mathematical state of a run: the recorded buzzes as `(participant id,
/// arrival time in ms)` pairs in arrival order, and the selection cursor.
pub ghost struct RunView {
    pub buzzed: Seq<(u128, u64)>,
    pub selection: int,
}

/// Whether the participant with the given id has a recorded buzz.
pub open spec fn has_buzzed(r: RunView, id: u128) -> bool {
    exists|i: int| 0 <= i < r.buzzed.len() && r.buzzed[i].0 == id
}

/// Elapsed milliseconds from the first buzz to a later one; a clock that
/// ran backwards reads as no elapsed time.
pub open spec fn diff_millis(time: u64, first: u64) -> u64 {
    if time >= first {
        (time - first) as u64
    } else {
        0u64
    }
}

/// How one buzz is classified: a repeat is `Already`, the first of a round
/// is `First`, and any later one carries its offset from the first.
pub open spec fn buzz_outcome(r: RunView, id: u128, time: u64) -> BuzzResult {
    if has_buzzed(r, id) {
        BuzzResult::Already
    } else if r.buzzed.len() == 0 {
        BuzzResult::First
    } else {
        BuzzResult::TimeDifference(diff_millis(time, r.buzzed[0].1))
    }
}

/// The run after one buzz: unchanged on a repeat, else the buzz is appended.
pub open spec fn buzz_step(r: RunView, id: u128, time: u64) -> RunView {
    if has_buzzed(r, id) {
        r
    } else {
        RunView { buzzed: r.buzzed.push((id, time)), selection: r.selection }
    }
}

/// What advancing the selection returns: nothing with fewer than two buzzes
/// or a cursor already on the last entry, else the pair of the previously
/// selected and the newly selected participant.
pub open spec fn select_next_outcome(r: RunView) -> Option<(u128, u128)> {
    if r.buzzed.len() < 2 || r.selection == r.buzzed.len() - 1 {
        None
    } else {
        Some((r.buzzed[r.selection].0, r.buzzed[r.selection + 1].0))
    }
}

/// The run after advancing the selection: unchanged when nothing was
/// returned, else the cursor moves one entry forward.
pub open spec fn select_next_step(r: RunView) -> RunView {
    if select_next_outcome(r) is None {
        r
    } else {
        RunView { buzzed: r.buzzed, selection: r.selection + 1 }
    }
}

/// A fresh run: no buzzes, cursor at the start.
pub open spec fn fresh_run() -> RunView {
    RunView { buzzed: Seq::empty(), selection: 0 }
}

/// Well-formedness of a run: the cursor stays inside the recorded buzzes
/// (at the start while there are none), and no participant appears twice.
pub open spec fn run_wf(r: RunView) -> bool {
    &&& r.buzzed.len() == 0 ==> r.selection == 0
    &&& r.buzzed.len() > 0 ==> 0 <= r.selection < r.buzzed.len()
    &&& forall|i: int, j: int|
        0 <= i < j < r.buzzed.len() ==> r.buzzed[i].0 != r.buzzed[j].0
}

/// Law: in one round, buzzes from three distinct participants arriving in
/// order are classified `First` (no offset), then by their offsets from the
/// first buzz, the later offset at least the earlier one; and a repeat buzz
/// from the first participant is `Already` and leaves the run unchanged.
pub proof fn lemma_buzz_order_classification(
    ida: u128,
    idb: u128,
    idc: u128,
    ta: u64,
    tb: u64,
    tc: u64,
    tr: u64,
)
    requires
        ida != idb,
        ida != idc,
        idb != idc,
        ta <= tb <= tc,
    ensures
        ({
            let r0 = fresh_run();
            let r1 = buzz_step(r0, ida, ta);
            let r2 = buzz_step(r1, idb, tb);
            let r3 = buzz_step(r2, idc, tc);
            &&& buzz_outcome(r0, ida, ta) == BuzzResult::First
            &&& buzz_outcome(r1, idb, tb) == BuzzResult::TimeDifference(diff_millis(tb, ta))
            &&& buzz_outcome(r2, idc, tc) == BuzzResult::TimeDifference(diff_millis(tc, ta))
            &&& diff_millis(tc, ta) >= diff_millis(tb, ta)
            &&& buzz_outcome(r3, ida, tr) == BuzzResult::Already
            &&& buzz_step(r3, ida, tr) == r3
        }),
{
    let r0 = fresh_run();
    let r1 = buzz_step(r0, ida, ta);
    let r2 = buzz_step(r1, idb, tb);
    let r3 = buzz_step(r2, idc, tc);
    assert(!has_buzzed(r0, ida));
    assert(r1.buzzed == seq![(ida, ta)]);
    assert(!has_buzzed(r1, idb)) by {
        assert(forall|i: int| 0 <= i < r1.buzzed.len() ==> r1.buzzed[i].0 == ida);
    }
    assert(r2.buzzed == seq![(ida, ta), (idb, tb)]);
    assert(!has_buzzed(r2, idc)) by {
        assert(forall|i: int|
            0 <= i < r2.buzzed.len() ==> r2.buzzed[i].0 == ida || r2.buzzed[i].0 == idb);
    }
    assert(r3.buzzed == seq![(ida, ta), (idb, tb), (idc, tc)]);
    assert(has_buzzed(r3, ida)) by {
        assert(r3.buzzed[0].0 == ida);
    }
}

/// Law: advancing the selection returns nothing exactly when fewer than two
/// buzzes are recorded or the cursor already sits on the last entry;
/// otherwise it moves the cursor strictly one entry forward through arrival
/// order, the newly selected participant is the one who buzzed next after
/// the current selection, and is never the round winner.
pub proof fn lemma_select_next_advances(r: RunView)
    requires
        run_wf(r),
    ensures
        select_next_outcome(r) is None <==> (r.buzzed.len() < 2 || r.selection == r.buzzed.len()
            - 1),
        select_next_outcome(r) matches Some(pair) ==> {
            &&& pair.0 == r.buzzed[r.selection].0
            &&& pair.1 == r.buzzed[r.selection + 1].0
            &&& select_next_step(r).selection == r.selection + 1
            &&& select_next_step(r).buzzed == r.buzzed
            &&& r.selection + 1 >= 1
            &&& pair.1 != r.buzzed[0].0
            &&& run_wf(select_next_step(r))
        },
{
    if select_next_outcome(r) is Some {
        assert(r.buzzed[0].0 != r.buzzed[r.selection + 1].0);
    }
}

/// Law: after a clear the run is fresh, and on a fresh run any buzz — in
/// particular one from the previous round's winner — is classified `First`.
pub proof fn lemma_clear_resets(id: u128, time: u64)
    ensures
        run_wf(fresh_run()),
        buzz_outcome(fresh_run(), id, time) == BuzzResult::First,
{
}

pub struct Run {
    buzzed: Vec<(u128, u64)>,
    selection: usize,
}

impl View for Run {
    type V = RunView;

    closed spec fn view(&self) -> RunView {
        RunView { buzzed: self.buzzed@, selection: self.selection as int }
    }
}

impl Run {
    pub fn new() -> (r: Self)
        ensures
            r@ == fresh_run(),
            run_wf(r@),
    {
        Self { buzzed: Vec::new(), selection: 0 }
    }

    /// Records one buzz: a repeat from an already-recorded participant is
    /// rejected as `Already`, the first buzz of the round is `First`, and a
    /// later buzz is classified by its offset from the first.
    #[verifier::loop_isolation(false)]
    pub fn buzz(&mut self, buzzer: u128, time: u64) -> (res: BuzzResult)
        requires
            run_wf(old(self)@),
        ensures
            run_wf(final(self)@),
            res == buzz_outcome(old(self)@, buzzer, time),
            final(self)@ == buzz_step(old(self)@, buzzer, time),
    {
        // Scan from the back: the likeliest repeat is the last buzzer.
        let mut i: usize = self.buzzed.len();
        while i > 0
            invariant
                i <= self.buzzed.len(),
                forall|j: int| i <= j < self.buzzed.len() ==> self.buzzed@[j].0 != buzzer,
            decreases i,
        {
            i = i - 1;
            if self.buzzed[i].0 == buzzer {
                return BuzzResult::Already;
            }
        }
        let res = if self.buzzed.len() == 0 {
            BuzzResult::First
        } else {
            let first = self.buzzed[0].1;
            let diff = if time >= first {
                time - first
            } else {
                0
            };
            BuzzResult::TimeDifference(diff)
        };
        self.buzzed.push((buzzer, time));
        res
    }

    /// Advances the host's selection cursor to the next buzzer in arrival
    /// order, returning the previously and the newly selected participant;
    /// returns nothing with fewer than two buzzers or once exhausted.
    pub fn select_next(&mut self) -> (res: Option<(u128, u128)>)
        requires
            run_wf(old(self)@),
        ensures
            run_wf(final(self)@),
            res == select_next_outcome(old(self)@),
            final(self)@ == select_next_step(old(self)@),
    {
        if self.buzzed.len() < 2 || self.selection == self.buzzed.len() - 1 {
            return None;
        }
        self.selection = self.selection + 1;
        Some((self.buzzed[self.selection - 1].0, self.buzzed[self.selection].0))
    }

    /// The round winner's id, for the run that holds exactly the first buzz.
    pub fn first_unchecked(&self) -> (r: u128)
        requires
            self@.buzzed.len() == 1,
        ensures
            r == self@.buzzed[0].0,
    {
        self.buzzed[0].0
    }
}

} // verus!
