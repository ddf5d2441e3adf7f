//! The whole-number half of working out how far a separate audio file runs
//! ahead of or behind the video it belongs to: how the loudness envelope is
//! framed, how long the correlation is, which way a peak points, and what
//! three measured windows add up to.
//!
//! The measuring itself - decoding, loudness, the transform - is arithmetic
//! on samples and lives with the program; what it hands back here is a lag in
//! frames per window, and whether that window's peak stood out enough to be
//! believed.

use vstd::prelude::*;
use vstd::relations::{sorted_by, total_ordering};
use crate::choices::first_position;
use crate::text::{decimal, push_decimal, push_str, string_of};

verus! {

/// How long each envelope frame covers, in milliseconds. It also sets the
/// resolution of the answer: an offset is only ever known to the nearest
/// frame.
pub const FRAME_MS: u32 = 10;

/// The sample rate the envelopes are built from.
pub const RATE: u32 = 8000;

/// How many windows are measured across the film.
pub const WINDOWS: usize = 3;

/// How far the windows may disagree, in milliseconds, and still count as one
/// answer. Beyond a fifth of a second the two are not simply shifted.
pub const AGREEMENT_MS: u32 = 200;

/// How many samples one envelope frame takes at `rate`, and never fewer than
/// one.
pub open spec fn samples_per_frame(rate: nat) -> nat {
    let per = (rate * FRAME_MS) as nat / 1000;
    if per == 0 { 1 } else { per }
}

/// How many frames the envelope of `samples` samples at `rate` has: one per
/// whole or partial frame, and none at all for a rate of zero.
pub open spec fn frame_count(samples: nat, rate: nat) -> nat {
    if rate == 0 {
        0
    } else {
        let per = samples_per_frame(rate);
        ((samples + per - 1) as nat / per) as nat
    }
}

/// How many samples each envelope frame takes at `rate`.
pub fn frame_samples(rate: u32) -> (per: usize)
    ensures
        per == samples_per_frame(rate as nat),
        per >= 1,
{
    let per: u64 = (rate as u64) * (FRAME_MS as u64) / 1000;
    if per == 0 {
        1
    } else {
        per as usize
    }
}

/// How many frames the loudness envelope of `samples` samples at `rate` has.
///
/// A rate of zero has no frames at all rather than a division by nothing.
pub fn envelope_frames(samples: usize, rate: u32) -> (frames: usize)
    ensures
        frames == frame_count(samples as nat, rate as nat),
{
    if rate == 0 {
        return 0;
    }
    let per = frame_samples(rate);
    let whole = samples / per;
    if samples % per == 0 {
        proof {
            lemma_ceiling(samples as int, per as int);
        }
        whole
    } else {
        proof {
            lemma_ceiling(samples as int, per as int);
            assert(per >= 2);
            vstd::arithmetic::div_mod::lemma_div_is_ordered_by_denominator(samples as int, 2, per as int);
        }
        whole + 1
    }
}

proof fn lemma_ceiling(n: int, d: int)
    requires
        n >= 0,
        d >= 1,
    ensures
        n % d == 0 ==> (n + d - 1) / d == n / d,
        n % d != 0 ==> (n + d - 1) / d == n / d + 1,
{
    let q = n / d;
    let r = n % d;
    assert(n == q * d + r && 0 <= r < d) by (nonlinear_arith)
        requires q == n / d, r == n % d, d >= 1;
    if r == 0 {
        assert(n + d - 1 == q * d + (d - 1));
        vstd::arithmetic::div_mod::lemma_fundamental_div_mod_converse(n + d - 1, d, q, d - 1);
    } else {
        assert(n + d - 1 == (q + 1) * d + (r - 1)) by (nonlinear_arith)
            requires n == q * d + r;
        vstd::arithmetic::div_mod::lemma_fundamental_div_mod_converse(n + d - 1, d, q + 1, r - 1);
    }
}

/// Whether `n` is one, two, four, eight, and so on.
pub open spec fn is_power_of_two(n: nat) -> bool
    decreases n,
{
    if n == 1 {
        true
    } else if n < 2 || n % 2 != 0 {
        false
    } else {
        is_power_of_two(n / 2)
    }
}

/// The length a circular correlation of two envelopes is computed at: the
/// smallest power of two that holds both of them end to end, so that the
/// wrap-around never folds one onto itself.
pub open spec fn is_correlation_length(n: nat, total: nat) -> bool {
    &&& is_power_of_two(n)
    &&& n >= total
    &&& (n == 1 || n / 2 < total)
}

/// How long the correlation of envelopes of `a_len` and `b_len` frames is,
/// or nothing when either is too short to correlate at all: two recordings
/// with fewer than two frames between them have no shape to match.
pub fn correlation_length(a_len: usize, b_len: usize) -> (n: Option<usize>)
    requires
        a_len + b_len <= usize::MAX / 2 + 1,
    ensures
        (a_len < 2 || b_len < 2) <==> n.is_none(),
        n.is_some() ==> is_correlation_length(n.unwrap() as nat, (a_len + b_len) as nat),
{
    if a_len < 2 || b_len < 2 {
        return None;
    }
    let total = a_len + b_len;
    let mut n: usize = 1;
    while n < total
        invariant
            1 <= n,
            n < 2 * total,
            total <= usize::MAX / 2 + 1,
            total >= 4,
            is_power_of_two(n as nat),
            n == 1 || n / 2 < total,
        decreases 2 * total - n,
    {
        proof {
            assert((2 * n) as nat / 2 == n as nat);
            assert((2 * n) as nat % 2 == 0);
        }
        n = n * 2;
    }
    Some(n)
}

/// How far the second envelope runs behind the first, in frames, for a
/// correlation of length `n` that peaked at `index`.
///
/// The second half of a circular correlation is the negative lags, and the
/// sign is turned round so that it means something to a reader: positive is
/// an audio file that runs late and has to be pulled forward.
pub open spec fn lag_at(index: int, n: int) -> int {
    if index <= n / 2 {
        -index
    } else {
        n - index
    }
}

/// The lag, in frames, that a correlation peak at `index` stands for.
pub fn lag_from_peak(index: usize, n: usize) -> (lag: i64)
    requires
        index < n,
        n <= i64::MAX,
    ensures
        lag == lag_at(index as int, n as int),
{
    if index <= n / 2 {
        -(index as i64)
    } else {
        (n - index) as i64
    }
}

/// A lag in frames, as milliseconds.
pub open spec fn lag_millis(lag: int) -> int {
    lag * FRAME_MS
}

/// A lag in frames, as milliseconds.
pub fn millis_of_lag(lag: i64) -> (ms: i128)
    ensures
        ms == lag_millis(lag as int),
{
    (lag as i128) * 10
}

/// Whether `a` comes no later than `b`.
pub open spec fn no_later(a: i64, b: i64) -> bool {
    a <= b
}

/// The order lags are sorted in: earliest first.
pub open spec fn in_order() -> spec_fn(i64, i64) -> bool {
    |a: i64, b: i64| no_later(a, b)
}

/// The middle of `values` once they are put in order; for an even count, the
/// later of the two middle ones.
pub open spec fn median_of(values: Seq<i64>) -> i64 {
    values.sort_by(in_order())[(values.len() / 2) as int]
}

proof fn lemma_no_later_total()
    ensures
        total_ordering(in_order()),
{
}

proof fn lemma_insert_multiset(s: Seq<i64>, pos: int, x: i64)
    requires
        0 <= pos <= s.len(),
    ensures
        s.insert(pos, x).to_multiset() =~= s.to_multiset().insert(x),
{
    broadcast use vstd::multiset::group_multiset_axioms;
    let t = s.insert(pos, x);
    assert(t.remove(pos) =~= s);
    t.to_multiset_ensures();
    assert(t.contains(x)) by {
        assert(t[pos] == x);
    }
    assert(t.to_multiset().count(x) > 0);
}

/// The values of `values`, in order.
fn sorted_copy(values: &Vec<i64>) -> (out: Vec<i64>)
    ensures
        sorted_by(out@, in_order()),
        out@.to_multiset() == values@.to_multiset(),
{
    let mut out: Vec<i64> = Vec::new();
    let mut i: usize = 0;
    assert(values@.take(0) =~= Seq::<i64>::empty());
    while i < values.len()
        invariant
            i <= values.len(),
            sorted_by(out@, in_order()),
            out@.to_multiset() == values@.take(i as int).to_multiset(),
        decreases values.len() - i,
    {
        let x = values[i];
        let mut pos: usize = 0;
        while pos < out.len() && out[pos] <= x
            invariant
                pos <= out.len(),
                forall|k: int| 0 <= k < pos ==> out@[k] <= x,
            decreases out.len() - pos,
        {
            pos = pos + 1;
        }
        let ghost before = out@;
        out.insert(pos, x);
        proof {
            before.insert_ensures(pos as int, x);
            assert(out@ == before.insert(pos as int, x));
            lemma_insert_multiset(before, pos as int, x);
            assert(values@.take(i + 1) =~= values@.take(i as int).push(x));
            values@.take(i as int).to_multiset_ensures();
            assert(pos == before.len() || before[pos as int] > x);
            assert forall|a: int, b: int| 0 <= a < b < out@.len() implies
                #[trigger] in_order()(out@[a], out@[b]) by {
                if b < pos {
                    assert(in_order()(before[a], before[b]));
                } else if b == pos {
                    assert(out@[a] == before[a]);
                } else if a < pos {
                    assert(out@[a] == before[a]);
                    assert(out@[b] == before[b - 1]);
                    assert(in_order()(before[a], before[b - 1]));
                } else if a == pos {
                    assert(out@[b] == before[b - 1]);
                    if pos < b - 1 {
                        assert(in_order()(before[pos as int], before[b - 1]));
                    }
                } else {
                    assert(out@[a] == before[a - 1]);
                    assert(out@[b] == before[b - 1]);
                    assert(in_order()(before[a - 1], before[b - 1]));
                }
            }
        }
        i = i + 1;
    }
    assert(values@.take(values.len() as int) =~= values@);
    out
}

/// The middle value of `values` once they are in order.
pub fn median(values: &Vec<i64>) -> (m: i64)
    requires
        values.len() > 0,
    ensures
        m == median_of(values@),
        values@.contains(m),
{
    let sorted = sorted_copy(values);
    proof {
        lemma_no_later_total();
        values@.lemma_sort_by_ensures(in_order());
        vstd::seq_lib::lemma_sorted_unique(
            sorted@,
            values@.sort_by(in_order()),
            in_order(),
        );
        values@.to_multiset_ensures();
        sorted@.to_multiset_ensures();
    }
    let m = sorted[sorted.len() / 2];
    proof {
        assert(sorted@.contains(m));
        assert(sorted@.to_multiset().count(m) > 0);
    }
    m
}


/// The latest of some lags.
pub open spec fn latest(lags: Seq<i64>) -> int
    decreases lags.len(),
{
    if lags.len() <= 1 {
        if lags.len() == 1 { lags[0] as int } else { 0 }
    } else {
        let rest = latest(lags.drop_last());
        if lags.last() > rest { lags.last() as int } else { rest }
    }
}

/// The earliest of some lags.
pub open spec fn earliest(lags: Seq<i64>) -> int
    decreases lags.len(),
{
    if lags.len() <= 1 {
        if lags.len() == 1 { lags[0] as int } else { 0 }
    } else {
        let rest = earliest(lags.drop_last());
        if lags.last() < rest { lags.last() as int } else { rest }
    }
}

/// Whether the windows agree closely enough to be one shift: no two of them
/// more than a fifth of a second apart.
pub open spec fn windows_agree(lags: Seq<i64>) -> bool {
    lag_millis(latest(lags) - earliest(lags)) <= AGREEMENT_MS
}

/// What the confident windows of one measurement add up to.
#[derive(Clone, Copy, PartialEq, Eq, Debug, Structural)]
pub enum Decision {
    /// One shift lines the whole film up: the middle of what the windows
    /// found, in frames. Positive means the audio file runs late.
    Offset { lag_frames: i64 },
    /// The windows disagree in a line that grows with position: the two run at
    /// different rates, and no single shift fixes that. What the first and
    /// the last of them found, so the drift between them can be reported.
    RateMismatch { first_lag: i64, last_lag: i64 },
    /// Nothing worth believing.
    Unsure,
}

/// What the confident windows' lags add up to, in the order the windows sit
/// in the film. `spread` says whether the windows sit at different times,
/// which a film too short to place them apart does not.
pub open spec fn decision_of(lags: Seq<i64>, spread: bool) -> Decision {
    if lags.len() < 2 {
        Decision::Unsure
    } else if windows_agree(lags) {
        Decision::Offset { lag_frames: median_of(lags) }
    } else if spread {
        Decision::RateMismatch { first_lag: lags[0], last_lag: lags.last() }
    } else {
        Decision::Unsure
    }
}

/// Works out what the windows that could be believed say together.
///
/// Two at least, because a single agreement can be luck. Agreement within a
/// fifth of a second is one shift, and the middle of them is the answer;
/// disagreement between windows at different times is a rate difference,
/// reported rather than averaged away; anything else is no answer at all.
pub fn decide(lags: &Vec<i64>, spread: bool) -> (decision: Decision)
    ensures
        decision == decision_of(lags@, spread),
{
    if lags.len() < 2 {
        return Decision::Unsure;
    }
    let mut high: i64 = lags[0];
    let mut low: i64 = lags[0];
    let mut i: usize = 1;
    while i < lags.len()
        invariant
            1 <= i <= lags.len(),
            high == latest(lags@.take(i as int)),
            low == earliest(lags@.take(i as int)),
        decreases lags.len() - i,
    {
        assert(lags@.take(i + 1).drop_last() =~= lags@.take(i as int));
        if lags[i] > high {
            high = lags[i];
        }
        if lags[i] < low {
            low = lags[i];
        }
        i = i + 1;
    }
    assert(lags@.take(lags.len() as int) =~= lags@);
    if ((high as i128) - (low as i128)) * 10 <= 200 {
        Decision::Offset { lag_frames: median(lags) }
    } else if spread {
        Decision::RateMismatch { first_lag: lags[0], last_lag: lags[lags.len() - 1] }
    } else {
        Decision::Unsure
    }
}

proof fn lemma_bounds(lags: Seq<i64>)
    requires
        lags.len() >= 1,
    ensures
        forall|i: int| 0 <= i < lags.len() ==> earliest(lags) <= #[trigger] lags[i] <= latest(lags),
    decreases lags.len(),
{
    if lags.len() > 1 {
        lemma_bounds(lags.drop_last());
        assert forall|i: int| 0 <= i < lags.len() implies earliest(lags) <= #[trigger] lags[i] <= latest(lags) by {
            if i < lags.len() - 1 {
                assert(lags[i] == lags.drop_last()[i]);
            }
        }
    }
}

/// An offset is only ever one the windows actually found, and it lies
/// between the earliest and the latest of them; and no answer at all is
/// given on fewer than two believable windows.
pub proof fn offset_is_one_the_windows_found(lags: Seq<i64>, spread: bool)
    ensures
        lags.len() < 2 ==> decision_of(lags, spread) == Decision::Unsure,
        decision_of(lags, spread) matches Decision::Offset { lag_frames } ==> {
            &&& lags.contains(lag_frames)
            &&& earliest(lags) <= lag_frames <= latest(lags)
            &&& windows_agree(lags)
        },
        decision_of(lags, spread) is RateMismatch ==> !windows_agree(lags) && spread,
{
    if lags.len() >= 2 && windows_agree(lags) {
        lemma_no_later_total();
        lags.lemma_sort_by_ensures(in_order());
        let sorted = lags.sort_by(in_order());
        sorted.to_multiset_ensures();
        lags.to_multiset_ensures();
        let m = median_of(lags);
        assert(sorted.contains(m));
        assert(lags.contains(m));
        lemma_bounds(lags);
    }
}


/// The latest and the earliest of some lags are lags the windows found.
proof fn lemma_bounds_found(lags: Seq<i64>)
    requires
        lags.len() >= 1,
    ensures
        exists|i: int| 0 <= i < lags.len() && lags[i] == latest(lags),
        exists|i: int| 0 <= i < lags.len() && lags[i] == earliest(lags),
    decreases lags.len(),
{
    if lags.len() > 1 {
        let rest = lags.drop_last();
        lemma_bounds_found(rest);
        let hi = choose|i: int| 0 <= i < rest.len() && rest[i] == latest(rest);
        let lo = choose|i: int| 0 <= i < rest.len() && rest[i] == earliest(rest);
        assert(lags[hi] == rest[hi]);
        assert(lags[lo] == rest[lo]);
        assert(lags[lags.len() - 1] == lags.last());
    } else {
        assert(lags[0] == latest(lags));
        assert(lags[0] == earliest(lags));
    }
}

/// Whether every two of the windows lie within the agreement of each other.
pub open spec fn all_within_agreement(lags: Seq<i64>) -> bool {
    forall|i: int, j: int| 0 <= i < lags.len() && 0 <= j < lags.len()
        ==> (#[trigger] lags[i] - #[trigger] lags[j]) * FRAME_MS <= AGREEMENT_MS
}

/// One shift is reported exactly when there are two windows at least and
/// every two of them - not only the first and the last - lie within a
/// fifth of a second of each other. Otherwise windows at different times
/// report a rate mismatch between the first of them and the last, and
/// windows that cannot be told apart in time give no answer.
pub proof fn an_offset_needs_every_window_to_agree(lags: Seq<i64>, spread: bool)
    ensures
        decision_of(lags, spread) is Offset <==> lags.len() >= 2 && all_within_agreement(lags),
        decision_of(lags, spread) is RateMismatch <==> lags.len() >= 2 && !all_within_agreement(lags) && spread,
        decision_of(lags, spread) matches Decision::RateMismatch { first_lag, last_lag }
            ==> first_lag == lags[0] && last_lag == lags[lags.len() - 1],
        decision_of(lags, spread) is Unsure <==> lags.len() < 2 || (!all_within_agreement(lags) && !spread),
{
    if lags.len() >= 2 {
        lemma_bounds(lags);
        lemma_bounds_found(lags);
        let hi = choose|i: int| 0 <= i < lags.len() && lags[i] == latest(lags);
        let lo = choose|i: int| 0 <= i < lags.len() && lags[i] == earliest(lags);
        if windows_agree(lags) {
            assert forall|i: int, j: int| 0 <= i < lags.len() && 0 <= j < lags.len()
                implies (#[trigger] lags[i] - #[trigger] lags[j]) * FRAME_MS <= AGREEMENT_MS by {
                assert(lags[i] <= latest(lags));
                assert(earliest(lags) <= lags[j]);
            }
        } else {
            assert((lags[hi] - lags[lo]) * FRAME_MS > AGREEMENT_MS);
        }
    }
}

/// The shift an offset applies is the middle of what the windows found:
/// put the windows' lags in order and it is the one halfway along (the
/// later of the two middle ones for an even count) - not the first window's
/// nor any other one picked out.
pub proof fn the_offset_is_the_middle_window(lags: Seq<i64>, spread: bool)
    ensures
        decision_of(lags, spread) matches Decision::Offset { lag_frames } ==> exists|in_order_lags: Seq<i64>| {
            &&& #[trigger] in_order_lags.to_multiset() == lags.to_multiset()
            &&& in_order_lags.len() == lags.len()
            &&& forall|a: int, b: int| 0 <= a < b < in_order_lags.len() ==> in_order_lags[a] <= in_order_lags[b]
            &&& in_order_lags[(lags.len() / 2) as int] == lag_frames
        },
{
    if decision_of(lags, spread) is Offset {
        lemma_no_later_total();
        lags.lemma_sort_by_ensures(in_order());
        let sorted = lags.sort_by(in_order());
        assert forall|a: int, b: int| 0 <= a < b < sorted.len() implies sorted[a] <= sorted[b] by {
            assert(in_order()(sorted[a], sorted[b]));
        }
        assert(sorted.to_multiset() == lags.to_multiset());
        sorted.to_multiset_ensures();
        lags.to_multiset_ensures();
        assert(sorted.len() == lags.len());
        assert(sorted[(lags.len() / 2) as int] == median_of(lags));
    }
}

/// What the last step of aligning says, and what its buttons are.
pub struct ResultPage {
    /// What the measuring found, in a sentence.
    pub hint: String,
    /// Whether measuring again against another track is offered.
    pub retry: bool,
    /// The button that leaves: "Cancel" beside a retry, "Finish" otherwise.
    pub done: String,
}

/// The sentence that reports a decision.
pub open spec fn result_hint(decision: Decision) -> Seq<char> {
    match decision {
        Decision::Offset { lag_frames } => {
            let ms = lag_millis(lag_frames as int);
            if ms > 0 {
                "The audio file runs "@ + decimal(ms as nat) + "ms late, and has been adjusted to sync with the video."@
            } else if ms < 0 {
                "The audio file runs "@ + decimal((-ms) as nat) + "ms early, and has been adjusted to sync with the video."@
            } else {
                "The audio file is already in sync with the video, no adjustment needed."@
            }
        },
        Decision::RateMismatch { .. } =>
            "The audio file runs at a different speed than the video and cannot be automatically adjusted."@,
        Decision::Unsure => "The audio file could not be matched with the video."@,
    }
}

/// What the last step of aligning shows for a decision. Only a shift is
/// applied, and only where nothing was applied is measuring again offered:
/// the answer there is often a different track to measure against.
pub fn result_page(decision: Decision) -> (page: ResultPage)
    ensures
        page.hint@ == result_hint(decision),
        page.retry == !(decision is Offset),
        page.done@ == if page.retry { "Cancel"@ } else { "Finish"@ },
{
    let mut hint: Vec<char> = Vec::new();
    let retry = match decision {
        Decision::Offset { lag_frames } => {
            // Whole frames of ten milliseconds: the frames, and a nought.
            let frames: u64 = if lag_frames >= 0 { lag_frames as u64 } else { (-(lag_frames as i128)) as u64 };
            proof {
                if frames > 0 {
                    assert(decimal((frames * 10) as nat) == decimal(frames as nat).push('0'));
                }
            }
            if lag_frames > 0 {
                push_str(&mut hint, "The audio file runs ");
                push_decimal(&mut hint, frames);
                hint.push('0');
                push_str(&mut hint, "ms late, and has been adjusted to sync with the video.");
            } else if lag_frames < 0 {
                push_str(&mut hint, "The audio file runs ");
                push_decimal(&mut hint, frames);
                hint.push('0');
                push_str(&mut hint, "ms early, and has been adjusted to sync with the video.");
            } else {
                push_str(&mut hint, "The audio file is already in sync with the video, no adjustment needed.");
            }
            false
        },
        Decision::RateMismatch { .. } => {
            push_str(&mut hint, "The audio file runs at a different speed than the video and cannot be automatically adjusted.");
            true
        },
        Decision::Unsure => {
            push_str(&mut hint, "The audio file could not be matched with the video.");
            true
        },
    };
    let done = if retry { "Cancel".to_string() } else { "Finish".to_string() };
    ResultPage { hint: string_of(hint), retry, done }
}

/// The row the choice of a track to measure against opens on: the first
/// track that is not a description, since a description is the thing being
/// lined up, and the first of all when description is all there is.
/// `described` says, track by track, which are descriptions.
pub open spec fn reference_row_of(described: Seq<bool>) -> nat {
    match first_position(described, false) {
        Some(row) => row,
        None => 0,
    }
}

/// The row the reference track chooser opens on; see `reference_row_of`.
pub fn reference_row(described: &[bool]) -> (row: usize)
    ensures
        row == reference_row_of(described@),
{
    let mut i: usize = 0;
    proof {
        assert(described@.subrange(0, described@.len() as int) =~= described@);
    }
    while i < described.len()
        invariant
            i <= described@.len(),
            first_position(described@, false) == match first_position(described@.subrange(i as int, described@.len() as int), false) {
                Some(q) => Some((q + i) as nat),
                None => None::<nat>,
            },
        decreases described@.len() - i,
    {
        proof {
            assert(described@.subrange(i as int, described@.len() as int).drop_first()
                =~= described@.subrange(i + 1, described@.len() as int));
        }
        if !described[i] {
            return i;
        }
        i = i + 1;
    }
    proof {
        assert(described@.subrange(i as int, described@.len() as int) =~= Seq::<bool>::empty());
    }
    0
}

} // verus!
