//! Time stamps and the one place where they are converted.
//!
//! A captured frame carries the compositor's system relative time in units of 100 ns, on the
//! performance counter's time base. The types below carry the unit, so that two clocks cannot be
//! mixed up, and [`Timeline::to_mf`] is the only conversion into media time.

use crate::consts::MF_TICKS_PER_SEC;
use vstd::prelude::*;

verus! {

/// System relative time in units of 100 ns.
#[derive(Debug, Clone, Copy, PartialEq, Eq, PartialOrd, Ord, Default, Structural)]
pub struct Srt100ns(pub i64);

/// Media time in units of 100 ns, counted from the first frame of the session.
#[derive(Debug, Clone, Copy, PartialEq, Eq, PartialOrd, Ord, Default, Structural)]
pub struct MfTime100ns(pub i64);

/// Raw performance counter reading.
#[derive(Debug, Clone, Copy, PartialEq, Eq, PartialOrd, Ord, Default, Structural)]
pub struct QpcTicks(pub i64);

/// Quotient rounded toward zero.
pub open spec fn quotient_toward_zero(a: int, b: int) -> int
    recommends
        b > 0,
{
    if a >= 0 {
        a / b
    } else {
        -((-a) / b)
    }
}

/// Converts a counter reading by the counter's frequency. Readings of different counters must
/// never be compared directly.
pub fn srt_from_qpc(qpc: QpcTicks, qpc_frequency: i64) -> (r: Srt100ns)
    requires
        qpc_frequency > 0,
    ensures
        r.0 == quotient_toward_zero(qpc.0 * MF_TICKS_PER_SEC, qpc_frequency as int) as i64,
{
    let scaled: i128 = (qpc.0 as i128) * (MF_TICKS_PER_SEC as i128);
    let ticks: i128 = if scaled >= 0 {
        let magnitude: u128 = (scaled as u128) / (qpc_frequency as u128);
        assert(magnitude <= scaled) by (nonlinear_arith)
            requires
                scaled >= 0,
                qpc_frequency > 0,
                magnitude == (scaled as u128) / (qpc_frequency as u128),
        ;
        magnitude as i128
    } else {
        let flipped: i128 = -scaled;
        let magnitude: u128 = (flipped as u128) / (qpc_frequency as u128);
        assert(magnitude <= flipped) by (nonlinear_arith)
            requires
                flipped >= 0,
                qpc_frequency > 0,
                magnitude == (flipped as u128) / (qpc_frequency as u128),
        ;
        -(magnitude as i128)
    };
    Srt100ns(#[verifier::truncate] (ticks as i64))
}

/// Session timeline: converts system relative time into media time and keeps it monotonic.
#[derive(Debug)]
pub struct Timeline {
    t0: Srt100ns,
    last_mf: Option<MfTime100ns>,
    anomalies: u64,
}

impl Timeline {
    /// The moment that media time counts from.
    pub closed spec fn start(&self) -> int {
        self.t0.0 as int
    }

    /// The media time handed out last.
    pub closed spec fn last(&self) -> Option<int> {
        match self.last_mf {
            Some(t) => Some(t.0 as int),
            None => None,
        }
    }

    /// How many conversions had to be moved forward.
    pub closed spec fn anomaly_count(&self) -> int {
        self.anomalies as int
    }

    /// The media time of `srt` if it keeps the order, else one tick after the last one.
    pub open spec fn next_time(&self, srt: Srt100ns) -> int {
        match self.last() {
            Some(last) if srt.0 - self.start() <= last => last + 1,
            _ => srt.0 - self.start(),
        }
    }

    /// `srt` does not keep the order.
    pub open spec fn out_of_order(&self, srt: Srt100ns) -> bool {
        self.last() matches Some(last) && srt.0 - self.start() <= last
    }

    /// The conversion of `srt` stays within 64 bits.
    pub open spec fn convertible(&self, srt: Srt100ns) -> bool {
        &&& i64::MIN <= srt.0 - self.start() <= i64::MAX
        &&& self.next_time(srt) <= i64::MAX
        &&& self.anomaly_count() < u64::MAX
    }

    /// `t0` is the system relative time of the first frame.
    pub fn new(t0: Srt100ns) -> (timeline: Timeline)
        ensures
            timeline.start() == t0.0,
            timeline.last() is None,
            timeline.anomaly_count() == 0,
    {
        Timeline { t0, last_mf: None, anomalies: 0 }
    }

    pub fn origin(&self) -> (t0: Srt100ns)
        ensures
            t0.0 == self.start(),
    {
        self.t0
    }

    /// Tells whether [`Timeline::to_mf`] may be asked for `srt`.
    pub fn can_convert(&self, srt: Srt100ns) -> (r: bool)
        ensures
            r == self.convertible(srt),
    {
        let fits: bool = match srt.0.checked_sub(self.t0.0) {
            None => false,
            Some(mf) => match self.last_mf {
                Some(last) => mf > last.0 || last.0 < i64::MAX,
                None => true,
            },
        };
        fits && self.anomalies < u64::MAX
    }

    /// The only conversion point: a subtraction, not a scaling. A value that does not grow is
    /// replaced by the last one plus one tick, and counted.
    pub fn to_mf(&mut self, srt: Srt100ns) -> (mf: MfTime100ns)
        requires
            old(self).convertible(srt),
        ensures
            mf.0 == old(self).next_time(srt),
            old(self).last() matches Some(last) ==> last < mf.0,
            converted_once(*old(self), srt, *final(self)),
    {
        let mut mf: MfTime100ns = MfTime100ns(srt.0 - self.t0.0);
        if let Some(last) = self.last_mf {
            if mf.0 <= last.0 {
                mf = MfTime100ns(last.0 + 1);
                self.anomalies = self.anomalies + 1;
            }
        }
        self.last_mf = Some(mf);
        mf
    }

    /// Length of the recording up to `srt`.
    pub fn elapsed(&self, srt: Srt100ns) -> (mf: MfTime100ns)
        requires
            i64::MIN <= srt.0 - self.start() <= i64::MAX,
        ensures
            mf.0 == srt.0 - self.start(),
    {
        MfTime100ns(srt.0 - self.t0.0)
    }

    pub fn anomalies(&self) -> (n: u64)
        ensures
            n == self.anomaly_count(),
    {
        self.anomalies
    }
}

impl Clone for Timeline {
    fn clone(&self) -> (r: Timeline)
        ensures
            r == *self,
    {
        Timeline { t0: self.t0, last_mf: self.last_mf, anomalies: self.anomalies }
    }
}

/// `after` is what [`Timeline::to_mf`] leaves of `before`.
pub open spec fn converted_once(before: Timeline, srt: Srt100ns, after: Timeline) -> bool {
    &&& after.start() == before.start()
    &&& after.last() == Some(before.next_time(srt))
    &&& after.anomaly_count() == before.anomaly_count() + (if before.out_of_order(srt) {
        1int
    } else {
        0int
    })
}

/// A timeline that converts a run of time stamps passes through these states.
pub open spec fn conversion_run(states: Seq<Timeline>, run: Seq<Srt100ns>) -> bool {
    &&& states.len() == run.len() + 1
    &&& states[0].last() is None
    &&& forall|i: int|
        0 <= i < run.len() ==> converted_once(#[trigger] states[i], run[i], states[i + 1])
}

/// However a device's clock behaves, the media times of a session strictly increase, and none
/// lies before the plain difference to the session start.
pub proof fn law_media_times_strictly_increase(
    states: Seq<Timeline>,
    run: Seq<Srt100ns>,
    i: int,
    j: int,
)
    requires
        conversion_run(states, run),
        0 < i < j <= run.len(),
    ensures
        states[i].last() is Some,
        states[j].last() is Some,
        states[i].last()->0 < states[j].last()->0,
        states[i].last()->0 >= run[i - 1].0 - states[0].start(),
    decreases j - i,
{
    lemma_start_is_kept(states, run, i - 1);
    assert(converted_once(states[i - 1], run[i - 1], states[i - 1 + 1]));
    assert(converted_once(states[j - 1], run[j - 1], states[j - 1 + 1]));
    if i < j - 1 {
        law_media_times_strictly_increase(states, run, i, j - 1);
    }
}

proof fn lemma_start_is_kept(states: Seq<Timeline>, run: Seq<Srt100ns>, i: int)
    requires
        conversion_run(states, run),
        0 <= i <= run.len(),
    ensures
        states[i].start() == states[0].start(),
    decreases i,
{
    if i > 0 {
        lemma_start_is_kept(states, run, i - 1);
        assert(converted_once(states[i - 1], run[i - 1], states[i - 1 + 1]));
    }
}

/// On a clock that only moves forward the conversion is exactly a subtraction, and nothing is
/// counted as an anomaly.
pub proof fn law_forward_clock_is_a_subtraction(
    states: Seq<Timeline>,
    run: Seq<Srt100ns>,
    i: int,
)
    requires
        conversion_run(states, run),
        forall|k: int, l: int| 0 <= k < l < run.len() ==> run[k].0 < run[l].0,
        0 < i <= run.len(),
    ensures
        states[i].last() == Some(run[i - 1].0 - states[0].start()),
        states[i].anomaly_count() == states[0].anomaly_count(),
    decreases i,
{
    lemma_start_is_kept(states, run, i - 1);
    assert(converted_once(states[i - 1], run[i - 1], states[i - 1 + 1]));
    if i > 1 {
        law_forward_clock_is_a_subtraction(states, run, i - 1);
    }
}

/// The media time of a stamp is the least one that is neither before its distance to the start nor
/// at or before the time handed out last. A stamp counts as an anomaly exactly where the two
/// differ.
pub proof fn law_media_time_is_the_least(t: Timeline, srt: Srt100ns, other: int)
    requires
        other >= srt.0 - t.start(),
        t.last() matches Some(last) ==> other > last,
    ensures
        t.next_time(srt) <= other,
        t.next_time(srt) >= srt.0 - t.start(),
        t.last() matches Some(last) ==> t.next_time(srt) > last,
        t.out_of_order(srt) <==> t.next_time(srt) != srt.0 - t.start(),
{
}

/// A quotient that is rounded toward zero has the sign of the number and leaves less than the
/// divisor.
pub proof fn law_rounding_toward_zero_keeps_the_sign(a: int, b: int)
    requires
        b > 0,
    ensures
        a >= 0 ==> 0 <= a - quotient_toward_zero(a, b) * b < b,
        a <= 0 ==> 0 <= quotient_toward_zero(a, b) * b - a < b,
        quotient_toward_zero(-a, b) == -quotient_toward_zero(a, b),
        a >= 0 ==> quotient_toward_zero(a, b) >= 0,
{
    lemma_remainder(a, b);
    lemma_remainder(-a, b);
    if a == 0 {
        vstd::arithmetic::div_mod::lemma_div_basics(b);
    }
    if a >= 0 {
        vstd::arithmetic::div_mod::lemma_div_pos_is_pos(a, b);
    }
    assert(-((-a) / b) * b == -(((-a) / b) * b)) by (nonlinear_arith);
}

proof fn lemma_remainder(a: int, b: int)
    requires
        b > 0,
    ensures
        0 <= a - (a / b) * b < b,
{
    vstd::arithmetic::div_mod::lemma_fundamental_div_mod(a, b);
    vstd::arithmetic::div_mod::lemma_mod_bound(a, b);
    assert((a / b) * b == b * (a / b)) by (nonlinear_arith);
}

/// A conversion that had to be moved is counted, any other is not, and the start stays where it is.
pub proof fn law_moved_times_are_counted(before: Timeline, srt: Srt100ns, after: Timeline)
    requires
        converted_once(before, srt, after),
    ensures
        after.start() == before.start(),
        after.last() is Some,
        after.last()->0 == srt.0 - before.start() ==> after.anomaly_count()
            == before.anomaly_count(),
        after.last()->0 != srt.0 - before.start() ==> after.anomaly_count()
            == before.anomaly_count() + 1,
        before.last() is None ==> after.last()->0 == srt.0 - before.start(),
        before.last() matches Some(last) ==> after.last()->0 > last,
{
}

} // verus!
