//! Reference profiles and the player that turns one into the setpoint that
//! is active at a given time.
use vstd::prelude::*;
use crate::pid::Reference;

verus! {

/// An ordered series of references; the order is the order of playback.
pub struct ReferenceSeries(pub Vec<Reference>);

/// The instant, in milliseconds after the start, at which segment `i` of
/// `s` begins (for `i == s.len()`, the instant at which the series ends).
pub open spec fn start_ms(s: Seq<Reference>, i: int) -> int
    decreases i,
{
    if i <= 0 || i > s.len() {
        0
    } else {
        start_ms(s, i - 1) + 1000 * s[i - 1].duration
    }
}

/// The first segment, from `i` on, that is still running at `t`.
pub open spec fn active_from(s: Seq<Reference>, t: int, i: int) -> Option<int>
    decreases s.len() - i,
{
    if i < 0 || i >= s.len() {
        None
    } else if t < start_ms(s, i + 1) {
        Some(i)
    } else {
        active_from(s, t, i + 1)
    }
}

/// The segment that is active `t` milliseconds after the start, or `None`
/// once every segment has been held.
pub open spec fn active_index(s: Seq<Reference>, t: int) -> Option<int> {
    if t < 0 {
        None
    } else {
        active_from(s, t, 0)
    }
}

/// The setpoint that is active `t` milliseconds after the start.
pub open spec fn setpoint_at(s: Seq<Reference>, t: int) -> Option<u32> {
    match active_index(s, t) {
        Some(i) => Some(s[i].temp),
        None => None,
    }
}

proof fn lemma_start_monotone(s: Seq<Reference>, i: int, j: int)
    requires
        0 <= i <= j <= s.len(),
    ensures
        start_ms(s, i) <= start_ms(s, j),
    decreases j - i,
{
    if i < j {
        lemma_start_monotone(s, i, j - 1);
    }
}

proof fn lemma_start_strict(s: Seq<Reference>, i: int, j: int)
    requires
        0 <= i < j <= s.len(),
        forall|k: int| 0 <= k < s.len() ==> s[k].duration > 0,
    ensures
        start_ms(s, i) < start_ms(s, j),
    decreases j - i,
{
    if i < j - 1 {
        lemma_start_strict(s, i, j - 1);
    }
}

proof fn lemma_active_from(s: Seq<Reference>, t: int, i: int, k: int)
    requires
        0 <= i <= s.len(),
        start_ms(s, i) <= t,
        forall|m: int| 0 <= m < s.len() ==> s[m].duration > 0,
    ensures
        (active_from(s, t, i) == Some(k)) <==> (i <= k < s.len() && start_ms(s, k) <= t < start_ms(
            s,
            k + 1,
        )),
    decreases s.len() - i,
{
    if i < s.len() {
        if t < start_ms(s, i + 1) {
            if k > i && k < s.len() {
                lemma_start_monotone(s, i + 1, k);
            }
        } else {
            lemma_active_from(s, t, i + 1, k);
        }
    }
}

/// With positive durations, segment `i` is active exactly during its own
/// window `[start_ms(i), start_ms(i + 1))`, whose length is its duration:
/// each of the N segments is played once, in order, for its duration, and
/// the series is over from `start_ms(N)` on.
pub proof fn lemma_segment_windows(s: Seq<Reference>, t: int, i: int)
    requires
        forall|k: int| 0 <= k < s.len() ==> s[k].duration > 0,
    ensures
        0 <= i < s.len() ==> ((active_index(s, t) == Some(i)) <==> (start_ms(s, i) <= t
            < start_ms(s, i + 1))),
        0 <= i < s.len() ==> start_ms(s, i + 1) - start_ms(s, i) == 1000 * s[i].duration,
        0 <= i < s.len() ==> start_ms(s, i) < start_ms(s, i + 1),
        (active_index(s, t) is None) <==> (t < 0 || t >= start_ms(s, s.len() as int)),
{
    if 0 <= t {
        lemma_active_from(s, t, 0, i);
        if t < start_ms(s, s.len() as int) {
            assert(s.len() > 0);
            let k = active_k(s, t);
            lemma_active_from(s, t, 0, k);
        } else if active_index(s, t) is Some {
            let k = active_index(s, t)->0;
            lemma_active_from(s, t, 0, k);
            lemma_start_monotone(s, k + 1, s.len() as int);
        }
    }
    if 0 <= i < s.len() {
        lemma_start_strict(s, i, i + 1);
        lemma_start_monotone(s, 0, i);
    }
}

/// The segment that holds `t`, for `0 <= t < start_ms(s, s.len())`.
proof fn active_k(s: Seq<Reference>, t: int) -> (k: int)
    requires
        0 <= t < start_ms(s, s.len() as int),
    ensures
        0 <= k < s.len(),
        start_ms(s, k) <= t < start_ms(s, k + 1),
    decreases s.len(),
{
    let n = s.len() as int;
    if n == 0 {
        0
    } else if start_ms(s, n - 1) <= t {
        n - 1
    } else {
        lemma_start_prefix(s, n - 1);
        let k = active_k(s.drop_last(), t);
        lemma_start_prefix(s, k);
        lemma_start_prefix(s, k + 1);
        k
    }
}

proof fn lemma_start_prefix(s: Seq<Reference>, i: int)
    requires
        s.len() > 0,
        0 <= i <= s.len() - 1,
    ensures
        start_ms(s.drop_last(), i) == start_ms(s, i),
    decreases i,
{
    if i > 0 {
        lemma_start_prefix(s, i - 1);
    }
}

/// The number of tick instants `k * period` (k >= 0) in `[0, t)`.
pub open spec fn ticks_before(t: int, period: int) -> int {
    if t <= 0 {
        0
    } else {
        (t + period - 1) / period
    }
}

/// A segment of `d` milliseconds starting at `a` is seen by the ticks of
/// period `p` within one tick of its duration: the ticks that fall in the
/// window span between `d - p` and `d + p` milliseconds.
pub proof fn lemma_ticks_in_window(a: int, d: int, p: int)
    requires
        0 <= a,
        0 < d,
        0 < p,
    ensures
        d - p < (ticks_before(a + d, p) - ticks_before(a, p)) * p < d + p,
{
    let x = ticks_before(a + d, p);
    let y = ticks_before(a, p);
    assert(a + d <= x * p < a + d + p) by (nonlinear_arith)
        requires
            x == (a + d + p - 1) / p,
            0 < a + d,
            0 < p,
    ;
    if a > 0 {
        assert(a <= y * p < a + p) by (nonlinear_arith)
            requires
                y == (a + p - 1) / p,
                0 < a,
                0 < p,
        ;
    }
    assert((x - y) * p == x * p - y * p) by (nonlinear_arith);
}

/// The character of a decimal digit.
pub open spec fn digit_char(d: nat) -> char {
    if d == 0 {
        '0'
    } else if d == 1 {
        '1'
    } else if d == 2 {
        '2'
    } else if d == 3 {
        '3'
    } else if d == 4 {
        '4'
    } else if d == 5 {
        '5'
    } else if d == 6 {
        '6'
    } else if d == 7 {
        '7'
    } else if d == 8 {
        '8'
    } else {
        '9'
    }
}

/// The decimal text of `n`, without leading zeros.
pub open spec fn decimal(n: nat) -> Seq<char>
    decreases n,
{
    if n < 10 {
        seq![digit_char(n)]
    } else {
        decimal(n / 10) + seq![digit_char(n % 10)]
    }
}

/// The text of a series: `<duration>: <temp>, ` for each segment, in order.
pub open spec fn series_text(s: Seq<Reference>) -> Seq<char>
    decreases s.len(),
{
    if s.len() == 0 {
        Seq::empty()
    } else {
        series_text(s.drop_last()) + decimal(s.last().duration as nat) + seq![':', ' ']
            + decimal(s.last().temp as nat) + seq![',', ' ']
    }
}

fn append_digit(s: &mut String, d: u64)
    requires
        d < 10,
    ensures
        final(s)@ == old(s)@.push(digit_char(d as nat)),
{
    let t = if d == 0 {
        "0"
    } else if d == 1 {
        "1"
    } else if d == 2 {
        "2"
    } else if d == 3 {
        "3"
    } else if d == 4 {
        "4"
    } else if d == 5 {
        "5"
    } else if d == 6 {
        "6"
    } else if d == 7 {
        "7"
    } else if d == 8 {
        "8"
    } else {
        "9"
    };
    proof {
        reveal_strlit("0");
        reveal_strlit("1");
        reveal_strlit("2");
        reveal_strlit("3");
        reveal_strlit("4");
        reveal_strlit("5");
        reveal_strlit("6");
        reveal_strlit("7");
        reveal_strlit("8");
        reveal_strlit("9");
    }
    s.append(t);
    assert(final(s)@ =~= old(s)@.push(digit_char(d as nat)));
}

/// Appends the decimal text of `n` to `s`.
pub fn append_decimal(s: &mut String, n: u64)
    ensures
        final(s)@ == old(s)@ + decimal(n as nat),
    decreases n,
{
    if n >= 10 {
        append_decimal(s, n / 10);
    }
    append_digit(s, n % 10);
    assert(final(s)@ =~= old(s)@ + decimal(n as nat));
}

/// Ticks at `0, p, 2p, ...`, with a period no longer than any segment, see
/// the segments of a series with positive durations in order: the active
/// segment never goes back, never jumps a segment from one tick to the
/// next, the series is over only after its last segment, and each segment
/// is active at some tick. So a run that takes one step per tick and uses
/// `setpoint_at` plays each of the N segments as one non-empty block of
/// steps, in series order.
pub proof fn lemma_ticks_visit_segments(s: Seq<Reference>, p: int, t1: int, t2: int, k: int, i: int)
    requires
        p > 0,
        forall|m: int| 0 <= m < s.len() ==> s[m].duration > 0,
        forall|m: int| 0 <= m < s.len() ==> p <= 1000 * s[m].duration,
    ensures
        0 <= t1 <= t2 && active_index(s, t1) is Some && active_index(s, t2) is Some ==> active_index(
            s,
            t1,
        )->0 <= active_index(s, t2)->0,
        0 <= t1 <= t2 && active_index(s, t1) is None ==> active_index(s, t2) is None,
        k >= 0 && active_index(s, k * p) is Some && active_index(s, (k + 1) * p) is Some
            ==> active_index(s, (k + 1) * p)->0 <= active_index(s, k * p)->0 + 1,
        k >= 0 && active_index(s, k * p) is Some && active_index(s, (k + 1) * p) is None
            ==> active_index(s, k * p)->0 == s.len() - 1,
        0 <= i < s.len() ==> active_index(s, ticks_before(start_ms(s, i), p) * p) == Some(i),
{
    let n = s.len() as int;
    if 0 <= t1 <= t2 && active_index(s, t1) is Some && active_index(s, t2) is Some {
        let a = active_index(s, t1)->0;
        let b = active_index(s, t2)->0;
        lemma_segment_windows(s, t1, a);
        lemma_segment_windows(s, t2, b);
        lemma_active_in_range(s, t1);
        lemma_active_in_range(s, t2);
        if b < a {
            lemma_start_monotone(s, b + 1, a);
        }
    }
    if 0 <= t1 <= t2 && active_index(s, t1) is None {
        lemma_segment_windows(s, t1, 0);
        lemma_segment_windows(s, t2, 0);
    }
    if k >= 0 && active_index(s, k * p) is Some {
        let t = k * p;
        assert(t >= 0) by (nonlinear_arith)
            requires
                k >= 0,
                p > 0,
                t == k * p,
        ;
        assert((k + 1) * p == t + p) by (nonlinear_arith)
            requires
                t == k * p,
        ;
        let a = active_index(s, t)->0;
        lemma_active_in_range(s, t);
        lemma_segment_windows(s, t, a);
        if a + 1 < n {
            lemma_segment_windows(s, t, a + 1);
            assert(start_ms(s, a + 2) == start_ms(s, a + 1) + 1000 * s[a + 1].duration);
            if active_index(s, t + p) is Some {
                let b = active_index(s, t + p)->0;
                lemma_active_in_range(s, t + p);
                lemma_segment_windows(s, t + p, b);
                if b > a + 1 {
                    lemma_start_monotone(s, a + 2, b);
                }
            } else {
                lemma_segment_windows(s, t + p, 0);
                lemma_start_monotone(s, a + 2, n);
            }
        } else if active_index(s, t + p) is Some {
            lemma_active_in_range(s, t + p);
        }
    }
    if 0 <= i < n {
        let a = start_ms(s, i);
        lemma_start_monotone(s, 0, i);
        lemma_segment_windows(s, 0, i);
        let x = ticks_before(a, p);
        if a > 0 {
            assert(a <= x * p < a + p) by (nonlinear_arith)
                requires
                    x == (a + p - 1) / p,
                    0 < a,
                    0 < p,
            ;
        }
        lemma_segment_windows(s, x * p, i);
    }
}

proof fn lemma_active_in_range(s: Seq<Reference>, t: int)
    requires
        active_index(s, t) is Some,
    ensures
        0 <= active_index(s, t)->0 < s.len(),
{
    lemma_active_from_range(s, t, 0);
}

proof fn lemma_active_from_range(s: Seq<Reference>, t: int, i: int)
    requires
        active_from(s, t, i) is Some,
    ensures
        i <= active_from(s, t, i)->0 < s.len(),
        0 <= i,
    decreases s.len() - i,
{
    if 0 <= i < s.len() && t >= start_ms(s, i + 1) {
        lemma_active_from_range(s, t, i + 1);
    }
}

impl ReferenceSeries {
    pub open spec fn view(&self) -> Seq<Reference> {
        self.0@
    }

    pub fn new(references: Vec<Reference>) -> (r: ReferenceSeries)
        ensures
            r@ == references@,
    {
        ReferenceSeries(references)
    }

    pub fn len(&self) -> (r: usize)
        ensures
            r == self@.len(),
    {
        self.0.len()
    }

    /// A copy of the series.
    pub fn duplicate(&self) -> (r: ReferenceSeries)
        ensures
            r@ == self@,
    {
        let mut v: Vec<Reference> = Vec::new();
        let mut i: usize = 0;
        while i < self.0.len()
            invariant
                i <= self@.len(),
                v@ == self@.subrange(0, i as int),
            decreases self.0.len() - i,
        {
            v.push(self.0[i]);
            i = i + 1;
            assert(v@ =~= self@.subrange(0, i as int));
        }
        assert(self@.subrange(0, i as int) =~= self@);
        ReferenceSeries(v)
    }

    /// The series as text: `<duration>: <temp>, ` for each segment.
    pub fn to_text(&self) -> (r: String)
        ensures
            r@ == series_text(self@),
    {
        let mut r = String::new();
        let mut i: usize = 0;
        while i < self.0.len()
            invariant
                i <= self@.len(),
                r@ == series_text(self@.subrange(0, i as int)),
            decreases self.0.len() - i,
        {
            let seg = self.0[i];
            let ghost before = r@;
            proof {
                reveal_strlit(": ");
                reveal_strlit(", ");
            }
            assert(": "@ =~= seq![':', ' ']);
            assert(", "@ =~= seq![',', ' ']);
            append_decimal(&mut r, seg.duration);
            r.append(": ");
            append_decimal(&mut r, seg.temp as u64);
            r.append(", ");
            assert(self@.subrange(0, i + 1).drop_last() =~= self@.subrange(0, i as int));
            assert(self@.subrange(0, i + 1).last() == seg);
            assert(r@ =~= before + decimal(seg.duration as nat) + seq![':', ' '] + decimal(
                seg.temp as nat,
            ) + seq![',', ' ']);
            i = i + 1;
            assert(r@ =~= series_text(self@.subrange(0, i as int)));
        }
        assert(self@.subrange(0, i as int) =~= self@);
        r
    }

    /// The segment active `elapsed_ms` milliseconds after the start of the
    /// series, with its index; `None` once the series is over.
    pub fn active_segment(&self, elapsed_ms: u64) -> (r: Option<(usize, Reference)>)
        ensures
            match r {
                Some((i, seg)) => active_index(self@, elapsed_ms as int) == Some(i as int) && seg
                    == self@[i as int],
                None => active_index(self@, elapsed_ms as int) is None,
            },
    {
        let n = self.0.len();
        let mut i: usize = 0;
        let mut start: u128 = 0;
        let t = elapsed_ms as u128;
        while i < n
            invariant
                n == self@.len(),
                i <= n,
                start == start_ms(self@, i as int),
                start <= t,
                t == elapsed_ms,
                active_from(self@, t as int, 0) == active_from(self@, t as int, i as int),
            decreases n - i,
        {
            let end: u128 = start + 1000 * (self.0[i].duration as u128);
            if t < end {
                return Some((i, self.0[i]));
            }
            start = end;
            i = i + 1;
        }
        None
    }

    /// The setpoint active `elapsed_ms` milliseconds after the start.
    pub fn setpoint_at(&self, elapsed_ms: u64) -> (r: Option<u32>)
        ensures
            r == setpoint_at(self@, elapsed_ms as int),
    {
        match self.active_segment(elapsed_ms) {
            Some((_, seg)) => Some(seg.temp),
            None => None,
        }
    }
}

} // verus!
