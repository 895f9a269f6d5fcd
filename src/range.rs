use vstd::prelude::*;
use vstd::arithmetic::div_mod::{lemma_fundamental_div_mod, lemma_mod_bound};
use crate::calendar::{apply_time_add, offset_spec, tz_seq};
use crate::duration::Duration;
use crate::types::{ClosedWindow, RangeError, TimeUnit, includes_end, includes_start, ns_per_unit};

verus! {

/// The values of a sequence of `i64` as mathematical integers.
pub open spec fn ints(s: Seq<i64>) -> Seq<int> {
    s.map_values(|x: i64| x as int)
}

/// Index of the first step taken: 0 when the start is included, else 1.
pub open spec fn first_index(c: ClosedWindow) -> int {
    if includes_start(c) {
        0
    } else {
        1
    }
}

/// Whether the instant `t` lies on the kept side of `end`.
pub open spec fn before_end(t: int, end: int, c: ClosedWindow) -> bool {
    if includes_end(c) {
        t <= end
    } else {
        t < end
    }
}

/// Largest `k` with `start + k * step` on the kept side of `end`.
pub open spec fn last_index(start: int, end: int, step: int, c: ClosedWindow) -> int {
    if includes_end(c) {
        (end - start) / step
    } else {
        (end - start - 1) / step
    }
}

/// Number of values of the fixed-step range.
pub open spec fn fixed_count(start: int, end: int, step: int, c: ClosedWindow) -> int {
    let n = last_index(start, end, step, c) - first_index(c) + 1;
    if n < 0 {
        0
    } else {
        n
    }
}

/// The arithmetic progression `start + k * step`, for each `k` from the first
/// index on, that stays on the kept side of `end`; empty when `start > end`.
pub open spec fn fixed_range(start: int, end: int, step: int, c: ClosedWindow) -> Seq<int> {
    if start > end {
        Seq::empty()
    } else {
        Seq::new(
            fixed_count(start, end, step, c) as nat,
            |j: int| start + (first_index(c) + j) * step,
        )
    }
}

/// The step of a fixed interval in the given unit.
pub open spec fn fixed_step(d: Duration, tu: TimeUnit) -> int {
    d.nsecs as int / ns_per_unit(tu)
}

pub open spec fn strictly_ascending(s: Seq<int>) -> bool {
    forall|a: int, b: int| 0 <= a < b < s.len() ==> s[a] < s[b]
}

proof fn lemma_mul_le_iff_div(k: int, d: int, step: int)
    requires
        step > 0,
    ensures
        (k * step <= d) == (k <= d / step),
{
    lemma_fundamental_div_mod(d, step);
    lemma_mod_bound(d, step);
    let q = d / step;
    let r = d % step;
    assert((k * step <= d) == (k <= q)) by (nonlinear_arith)
        requires
            d == step * q + r,
            0 <= r < step,
    ;
}

/// `start + k * step` is kept exactly when `k` is at most the last index.
proof fn lemma_kept_iff_index(start: int, end: int, step: int, c: ClosedWindow, k: int)
    requires
        step > 0,
    ensures
        before_end(start + k * step, end, c) == (k <= last_index(start, end, step, c)),
{
    if includes_end(c) {
        lemma_mul_le_iff_div(k, end - start, step);
    } else {
        lemma_mul_le_iff_div(k, end - start - 1, step);
    }
}

/// The values `start + k * step` from the first index on, up to `end` as
/// `closed` says.
fn fixed_range_i64(start: i64, end: i64, step: i64, closed: ClosedWindow) -> (r: Vec<i64>)
    requires
        start <= end,
        step > 0,
    ensures
        ints(r@) == fixed_range(start as int, end as int, step as int, closed),
{
    let incl: bool = closed.includes_end();
    let first: i128 = if closed.includes_start() {
        0
    } else {
        1
    };
    let mut cur: i128 = start as i128 + first * step as i128;
    let mut v: Vec<i64> = Vec::new();
    let ghost fc = fixed_count(start as int, end as int, step as int, closed);
    while (incl && cur <= end as i128) || (!incl && cur < end as i128)
        invariant
            incl == includes_end(closed),
            first == first_index(closed),
            cur == start + (first + v.len()) * step,
            start <= cur <= end + step,
            step > 0,
            v.len() <= fc,
            fc == fixed_count(start as int, end as int, step as int, closed),
            ints(v@) =~= Seq::new(
                v.len() as nat,
                |j: int| start + (first_index(closed) + j) * step,
            ),
        decreases end + step - cur,
    {
        proof {
            lemma_kept_iff_index(start as int, end as int, step as int, closed, first + v.len());
        }
        let ghost old_v = v@;
        v.push(cur as i64);
        proof {
            assert(ints(v@) =~= ints(old_v).push(cur as int));
        }
        cur = cur + step as i128;
        proof {
            assert(cur == start + (first + v.len()) * step) by (nonlinear_arith)
                requires
                    cur == start + (first + (v.len() - 1)) * step + step,
            ;
        }
    }
    proof {
        lemma_kept_iff_index(start as int, end as int, step as int, closed, first + v.len());
    }
    v
}

/// Whether `v` is the calendar-stepped range: its `j`-th value is the instant
/// `first_index + j` intervals after `start`, each on the kept side of `end`,
/// and the instant one interval further lies past `end`.
pub open spec fn is_calendar_range(
    v: Seq<int>,
    start: int,
    end: int,
    d: Duration,
    c: ClosedWindow,
    tu: TimeUnit,
    tz: Option<Seq<char>>,
) -> bool {
    &&& forall|j: int|
        #![trigger v[j]]
        0 <= j < v.len() ==> offset_spec(start, d, first_index(c) + j, tu, tz) == Ok::<int, RangeError>(v[j])
            && before_end(v[j], end, c)
    &&& first_index(c) + v.len() <= i64::MAX
    &&& offset_spec(start, d, first_index(c) + v.len(), tu, tz) matches Ok(x) && !before_end(x, end, c)
}

/// Every step from the first index up to, not including, `k` succeeded, kept
/// on the right side of `end`, and lies after the step before it.
pub open spec fn steps_kept(
    start: int,
    end: int,
    d: Duration,
    c: ClosedWindow,
    tu: TimeUnit,
    tz: Option<Seq<char>>,
    k: int,
) -> bool {
    &&& forall|j: int|
        #![trigger offset_spec(start, d, j, tu, tz)]
        first_index(c) <= j < k ==> (offset_spec(start, d, j, tu, tz) matches Ok(x) && before_end(x, end, c))
    &&& forall|j: int|
        #![trigger offset_spec(start, d, j, tu, tz)]
        first_index(c) < j < k ==> (offset_spec(start, d, j, tu, tz) matches Ok(x) && (offset_spec(
            start,
            d,
            j - 1,
            tu,
            tz,
        ) matches Ok(y) && y < x))
}

/// How a calendar-stepped range fails: every step before index `k` was kept
/// and advanced, and then step `k` failed with `e`, or did not move past the
/// step before it (an invalid interval), or the step index ran past `i64`
/// (an overflow).
pub open spec fn failure_at(
    e: RangeError,
    start: int,
    end: int,
    d: Duration,
    c: ClosedWindow,
    tu: TimeUnit,
    tz: Option<Seq<char>>,
    k: int,
) -> bool {
    &&& first_index(c) <= k <= i64::MAX + 1
    &&& steps_kept(start, end, d, c, tu, tz, k)
    &&& {
        ||| k <= i64::MAX && offset_spec(start, d, k, tu, tz) == Err::<int, RangeError>(e)
        ||| k <= i64::MAX && k > first_index(c) && e == RangeError::InvalidInterval && (offset_spec(
            start,
            d,
            k,
            tu,
            tz,
        ) matches Ok(x) && (offset_spec(start, d, k - 1, tu, tz) matches Ok(y) && x <= y))
        ||| k == i64::MAX + 1 && e == RangeError::ArithmeticOverflow
    }
}

pub open spec fn calendar_failure(
    e: RangeError,
    start: int,
    end: int,
    d: Duration,
    c: ClosedWindow,
    tu: TimeUnit,
    tz: Option<Seq<char>>,
) -> bool {
    exists|k: int| #[trigger] failure_at(e, start, end, d, c, tu, tz, k)
}

fn kept(t: i64, end: i64, closed: ClosedWindow) -> (r: bool)
    ensures
        r == before_end(t as int, end as int, closed),
{
    if closed.includes_end() {
        t <= end
    } else {
        t < end
    }
}

proof fn lemma_steps_extend(
    start: int,
    end: int,
    d: Duration,
    c: ClosedWindow,
    tu: TimeUnit,
    tz: Option<Seq<char>>,
    k: int,
    x: int,
)
    requires
        steps_kept(start, end, d, c, tu, tz, k),
        k >= first_index(c),
        offset_spec(start, d, k, tu, tz) == Ok::<int, RangeError>(x),
        before_end(x, end, c),
        k > first_index(c) ==> (offset_spec(start, d, k - 1, tu, tz) matches Ok(y) && y < x),
    ensures
        steps_kept(start, end, d, c, tu, tz, k + 1),
{
    assert forall|j: int| first_index(c) <= j < k + 1 implies (#[trigger] offset_spec(start, d, j, tu, tz) matches Ok(
        z,
    ) && before_end(z, end, c)) by {
        if j < k {
            assert(offset_spec(start, d, j, tu, tz) matches Ok(z) && before_end(z, end, c));
        }
    }
    assert forall|j: int| first_index(c) < j < k + 1 implies (#[trigger] offset_spec(start, d, j, tu, tz) matches Ok(
        z,
    ) && (offset_spec(start, d, j - 1, tu, tz) matches Ok(y) && y < z)) by {
        if j < k {
            assert(offset_spec(start, d, j, tu, tz) matches Ok(z) && (offset_spec(start, d, j - 1, tu, tz) matches Ok(
                y,
            ) && y < z));
        }
    }
}

/// The calendar-stepped range: `start` advanced by `i` intervals for each `i`
/// from the first index on, while the instant stays on the kept side of `end`.
/// Each instant must lie after the one before it.
#[verifier::rlimit(40)]
pub fn calendar_range_i64(
    start: i64,
    end: i64,
    interval: &Duration,
    closed: ClosedWindow,
    tu: TimeUnit,
    tz: Option<&str>,
) -> (r: Result<Vec<i64>, RangeError>)
    ensures
        r matches Ok(v) ==> is_calendar_range(ints(v@), start as int, end as int, *interval, closed, tu, tz_seq(tz))
            && strictly_ascending(ints(v@)),
        r matches Err(e) ==> calendar_failure(e, start as int, end as int, *interval, closed, tu, tz_seq(tz)),
{
    let ghost z = tz_seq(tz);
    let ghost d = *interval;
    let mut i: i64 = if closed.includes_start() {
        0
    } else {
        1
    };
    let mut v: Vec<i64> = Vec::new();
    let mut t: i64 = match apply_time_add(start, interval, i, tu, tz) {
        Ok(t) => t,
        Err(e) => {
            proof {
                assert(failure_at(e, start as int, end as int, d, closed, tu, z, i as int));
            }
            return Err(e);
        },
    };
    if !kept(t, end, closed) {
        proof {
            assert(ints(v@) =~= Seq::<int>::empty());
        }
        return Ok(v);
    }
    loop
        invariant
            i == first_index(closed) + v.len(),
            i >= first_index(closed),
            z == tz_seq(tz),
            d == *interval,
            steps_kept(start as int, end as int, d, closed, tu, z, i as int),
            offset_spec(start as int, d, i as int, tu, z) == Ok::<int, RangeError>(t as int),
            before_end(t as int, end as int, closed),
            forall|j: int|
                #![trigger v@[j]]
                0 <= j < v.len() ==> offset_spec(start as int, d, first_index(closed) + j, tu, z)
                    == Ok::<int, RangeError>(v@[j] as int) && before_end(v@[j] as int, end as int, closed),
            strictly_ascending(ints(v@)),
            v.len() > 0 ==> v@[v.len() - 1] < t,
        decreases end - t,
    {
        let ghost old_v = v@;
        proof {
            if v.len() > 0 {
                assert(offset_spec(start as int, d, first_index(closed) + (v.len() - 1), tu, z)
                    == Ok::<int, RangeError>(old_v[v.len() - 1] as int));
            }
            lemma_steps_extend(start as int, end as int, d, closed, tu, z, i as int, t as int);
        }
        v.push(t);
        proof {
            assert(forall|j: int| 0 <= j < old_v.len() ==> v@[j] == old_v[j]);
            assert forall|a: int, b: int| 0 <= a < b < ints(v@).len() implies ints(v@)[a] < ints(v@)[b] by {
                if b == v.len() - 1 && a < b {
                    assert(ints(old_v)[a] == old_v[a]);
                    if old_v.len() > 0 {
                        assert(ints(old_v)[a] <= ints(old_v)[old_v.len() - 1]);
                    }
                } else {
                    assert(ints(old_v)[a] < ints(old_v)[b]);
                }
            }
        }
        if i == i64::MAX {
            proof {
                assert(failure_at(RangeError::ArithmeticOverflow, start as int, end as int, d, closed, tu, z, i + 1));
            }
            return Err(RangeError::ArithmeticOverflow);
        }
        i = i + 1;
        let nt = match apply_time_add(start, interval, i, tu, tz) {
            Ok(nt) => nt,
            Err(e) => {
                proof {
                    assert(failure_at(e, start as int, end as int, d, closed, tu, z, i as int));
                }
                return Err(e);
            },
        };
        if nt <= t {
            proof {
                assert(failure_at(RangeError::InvalidInterval, start as int, end as int, d, closed, tu, z, i as int));
            }
            return Err(RangeError::InvalidInterval);
        }
        if !kept(nt, end, closed) {
            proof {
                let w = ints(v@);
                assert forall|j: int| 0 <= j < w.len() implies offset_spec(
                    start as int,
                    *interval,
                    first_index(closed) + j,
                    tu,
                    z,
                ) == Ok::<int, RangeError>(w[j]) && before_end(w[j], end as int, closed) by {
                    assert(w[j] == v@[j] as int);
                }
            }
            return Ok(v);
        }
        t = nt;
    }
}

/// A sequence result of `i64` values seen as a result of integers.
pub open spec fn res_seq(r: Result<Vec<i64>, RangeError>) -> Result<Seq<int>, RangeError> {
    match r {
        Ok(v) => Ok(ints(v@)),
        Err(e) => Err(e),
    }
}

/// What generating the range from `start` to `end` may return: empty when
/// `start > end`; an invalid interval when it is not positive; for an interval
/// without calendar components, the fixed-step range in the unit `tu`, or an
/// invalid interval when its length in `tu` is zero; for one with calendar
/// components, the calendar-stepped range or one of its failures. What is
/// returned is strictly ascending.
pub open spec fn range_outcome(
    r: Result<Seq<int>, RangeError>,
    start: int,
    end: int,
    interval: Duration,
    closed: ClosedWindow,
    tu: TimeUnit,
    tz: Option<Seq<char>>,
) -> bool {
    &&& start > end ==> r == Ok::<Seq<int>, RangeError>(Seq::empty())
    &&& start <= end && !interval.is_positive_spec() ==> r == Err::<Seq<int>, RangeError>(
        RangeError::InvalidInterval,
    )
    &&& start <= end && interval.is_positive_spec() && interval.is_fixed_spec() ==> {
        if fixed_step(interval, tu) == 0 {
            r == Err::<Seq<int>, RangeError>(RangeError::InvalidInterval)
        } else {
            r == Ok::<Seq<int>, RangeError>(fixed_range(start, end, fixed_step(interval, tu), closed))
        }
    }
    &&& start <= end && interval.is_positive_spec() && !interval.is_fixed_spec() ==> {
        &&& r matches Ok(v) ==> is_calendar_range(v, start, end, interval, closed, tu, tz)
        &&& r matches Err(e) ==> calendar_failure(e, start, end, interval, closed, tu, tz)
    }
    &&& r matches Ok(v) ==> strictly_ascending(v)
}

/// The timestamps from `start` to `end`, `interval` apart, in the unit `tu`,
/// the bounds kept as `closed` says. An interval without calendar components
/// steps by its length in `tu`; one with them is resolved on the calendar,
/// on the wall clock of the zone `tz` when one is given.
pub fn datetime_range_i64(
    start: i64,
    end: i64,
    interval: Duration,
    closed: ClosedWindow,
    tu: TimeUnit,
    tz: Option<&str>,
) -> (r: Result<Vec<i64>, RangeError>)
    ensures
        range_outcome(res_seq(r), start as int, end as int, interval, closed, tu, tz_seq(tz)),
{
    if start > end {
        let v: Vec<i64> = Vec::new();
        proof {
            assert(ints(v@) =~= Seq::<int>::empty());
        }
        return Ok(v);
    }
    if !interval.is_positive() {
        return Err(RangeError::InvalidInterval);
    }
    if interval.is_fixed() {
        let step: i64 = interval.nsecs / tu.ns_per_unit();
        if step == 0 {
            return Err(RangeError::InvalidInterval);
        }
        let v = fixed_range_i64(start, end, step, closed);
        proof {
            lemma_fixed_range_ascending(start as int, end as int, step as int, closed);
        }
        return Ok(v);
    }
    calendar_range_i64(start, end, &interval, closed, tu, tz)
}

/// A fixed-step range is strictly ascending.
pub proof fn lemma_fixed_range_ascending(start: int, end: int, step: int, c: ClosedWindow)
    requires
        step > 0,
    ensures
        strictly_ascending(fixed_range(start, end, step, c)),
{
    let s = fixed_range(start, end, step, c);
    assert forall|a: int, b: int| 0 <= a < b < s.len() implies s[a] < s[b] by {
        assert((first_index(c) + a) * step < (first_index(c) + b) * step) by (nonlinear_arith)
            requires
                a < b,
                step > 0,
        ;
    }
}

/// When `end - start` is a positive multiple of the step, the fixed-step range
/// keeping both bounds has one value more than the ranges keeping one bound,
/// and two more than the range keeping neither.
pub proof fn lemma_fixed_counts(start: int, end: int, step: int)
    requires
        step > 0,
        start < end,
        (end - start) % step == 0,
    ensures
        fixed_range(start, end, step, ClosedWindow::Both).len() == fixed_range(start, end, step, ClosedWindow::Left).len() + 1,
        fixed_range(start, end, step, ClosedWindow::Both).len() == fixed_range(start, end, step, ClosedWindow::Right).len() + 1,
        fixed_range(start, end, step, ClosedWindow::Both).len() == fixed_range(start, end, step, ClosedWindow::Neither).len() + 2,
{
    let d = end - start;
    let q = d / step;
    lemma_fundamental_div_mod(d, step);
    assert(d == q * step) by (nonlinear_arith)
        requires
            d == step * q + d % step,
            d % step == 0,
    ;
    assert(q >= 1) by (nonlinear_arith)
        requires
            d == q * step,
            d > 0,
            step > 0,
    ;
    lemma_mul_le_iff_div(q - 1, d - 1, step);
    lemma_mul_le_iff_div(q, d - 1, step);
    assert((q - 1) * step <= d - 1) by (nonlinear_arith)
        requires
            d == q * step,
            step > 0,
    ;
    assert(q * step > d - 1);
}

/// A generated calendar range is determined by its arguments: two sequences
/// that both meet the calendar-range description are equal.
pub proof fn lemma_calendar_range_unique(
    v1: Seq<int>,
    v2: Seq<int>,
    start: int,
    end: int,
    d: Duration,
    c: ClosedWindow,
    tu: TimeUnit,
    tz: Option<Seq<char>>,
)
    requires
        is_calendar_range(v1, start, end, d, c, tu, tz),
        is_calendar_range(v2, start, end, d, c, tu, tz),
    ensures
        v1 == v2,
{
    if v1.len() < v2.len() {
        let j = v1.len() as int;
        assert(offset_spec(start, d, first_index(c) + j, tu, tz) == Ok::<int, RangeError>(v2[j]));
    }
    if v2.len() < v1.len() {
        let j = v2.len() as int;
        assert(offset_spec(start, d, first_index(c) + j, tu, tz) == Ok::<int, RangeError>(v1[j]));
    }
    assert(v1.len() == v2.len());
    assert forall|j: int| 0 <= j < v1.len() implies v1[j] == v2[j] by {
        assert(v1[j] == v1[j] && v2[j] == v2[j]);
    }
    assert(v1 =~= v2);
}

/// A calendar-stepped range that was produced leaves no room for a failure.
proof fn lemma_range_excludes_failure(
    v: Seq<int>,
    e: RangeError,
    start: int,
    end: int,
    d: Duration,
    c: ClosedWindow,
    tu: TimeUnit,
    tz: Option<Seq<char>>,
    k: int,
)
    requires
        is_calendar_range(v, start, end, d, c, tu, tz),
        strictly_ascending(v),
    ensures
        !failure_at(e, start, end, d, c, tu, tz, k),
{
    if failure_at(e, start, end, d, c, tu, tz, k) {
        let f = first_index(c);
        let n = f + v.len();
        if k > n {
            assert(offset_spec(start, d, n, tu, tz) matches Ok(x) && before_end(x, end, c));
        } else if k < n {
            assert(offset_spec(start, d, f + (k - f), tu, tz) == Ok::<int, RangeError>(v[k - f]));
            if k > f {
                assert(offset_spec(start, d, f + (k - 1 - f), tu, tz) == Ok::<int, RangeError>(v[k - 1 - f]));
                assert(v[k - 1 - f] < v[k - f]);
            }
        } else {
            if k > f {
                assert(offset_spec(start, d, f + (k - 1 - f), tu, tz) == Ok::<int, RangeError>(v[k - 1 - f]));
                assert(before_end(v[k - 1 - f], end, c));
            }
        }
    }
}

/// Two failures of the same calendar-stepped range are the same failure.
proof fn lemma_failure_unique(
    e1: RangeError,
    e2: RangeError,
    start: int,
    end: int,
    d: Duration,
    c: ClosedWindow,
    tu: TimeUnit,
    tz: Option<Seq<char>>,
    k1: int,
    k2: int,
)
    requires
        failure_at(e1, start, end, d, c, tu, tz, k1),
        failure_at(e2, start, end, d, c, tu, tz, k2),
    ensures
        e1 == e2,
{
    if k1 < k2 {
        assert(offset_spec(start, d, k1, tu, tz) matches Ok(x) && before_end(x, end, c));
        if k1 > first_index(c) {
            assert(offset_spec(start, d, k1, tu, tz) matches Ok(x) && (offset_spec(start, d, k1 - 1, tu, tz) matches Ok(
                y,
            ) && y < x));
        }
    } else if k2 < k1 {
        assert(offset_spec(start, d, k2, tu, tz) matches Ok(x) && before_end(x, end, c));
        if k2 > first_index(c) {
            assert(offset_spec(start, d, k2, tu, tz) matches Ok(x) && (offset_spec(start, d, k2 - 1, tu, tz) matches Ok(
                y,
            ) && y < x));
        }
    }
}

/// Calling the generator twice with the same arguments gives the same result:
/// two results that both meet its contract are equal.
pub proof fn lemma_range_idempotent(
    r1: Result<Seq<int>, RangeError>,
    r2: Result<Seq<int>, RangeError>,
    start: int,
    end: int,
    interval: Duration,
    closed: ClosedWindow,
    tu: TimeUnit,
    tz: Option<Seq<char>>,
)
    requires
        range_outcome(r1, start, end, interval, closed, tu, tz),
        range_outcome(r2, start, end, interval, closed, tu, tz),
    ensures
        r1 == r2,
{
    if start <= end && interval.is_positive_spec() && !interval.is_fixed_spec() {
        match (r1, r2) {
            (Ok(v1), Ok(v2)) => {
                lemma_calendar_range_unique(v1, v2, start, end, interval, closed, tu, tz);
            },
            (Ok(v1), Err(e2)) => {
                let k = choose|k: int| failure_at(e2, start, end, interval, closed, tu, tz, k);
                lemma_range_excludes_failure(v1, e2, start, end, interval, closed, tu, tz, k);
            },
            (Err(e1), Ok(v2)) => {
                let k = choose|k: int| failure_at(e1, start, end, interval, closed, tu, tz, k);
                lemma_range_excludes_failure(v2, e1, start, end, interval, closed, tu, tz, k);
            },
            (Err(e1), Err(e2)) => {
                let k1 = choose|k: int| failure_at(e1, start, end, interval, closed, tu, tz, k);
                let k2 = choose|k: int| failure_at(e2, start, end, interval, closed, tu, tz, k);
                lemma_failure_unique(e1, e2, start, end, interval, closed, tu, tz, k1, k2);
            },
        }
    }
}

proof fn lemma_scaled_kept(start: int, end: int, step: int, c: ClosedWindow, k: int, j: int)
    requires
        k > 0,
    ensures
        before_end(start * k + j * (step * k), end * k, c) == before_end(start + j * step, end, c),
{
    assert(start * k + j * (step * k) == (start + j * step) * k) by (nonlinear_arith);
    assert(((start + j * step) * k <= end * k) == (start + j * step <= end)) by (nonlinear_arith)
        requires
            k > 0,
    ;
    assert(((start + j * step) * k < end * k) == (start + j * step < end)) by (nonlinear_arith)
        requires
            k > 0,
    ;
}

/// Scaling the bounds and the step by one positive factor scales each value of
/// a fixed-step range by it.
pub proof fn lemma_fixed_range_scaled(start: int, end: int, step: int, c: ClosedWindow, k: int)
    requires
        step > 0,
        k > 0,
    ensures
        fixed_range(start * k, end * k, step * k, c) == fixed_range(start, end, step, c).map_values(
            |x: int| x * k,
        ),
{
    assert(step * k > 0) by (nonlinear_arith)
        requires
            step > 0,
            k > 0,
    ;
    assert((start * k > end * k) == (start > end)) by (nonlinear_arith)
        requires
            k > 0,
    ;
    let l1 = last_index(start, end, step, c);
    let l2 = last_index(start * k, end * k, step * k, c);
    lemma_scaled_kept(start, end, step, c, k, l1);
    lemma_scaled_kept(start, end, step, c, k, l2);
    lemma_kept_iff_index(start, end, step, c, l1);
    lemma_kept_iff_index(start, end, step, c, l2);
    lemma_kept_iff_index(start * k, end * k, step * k, c, l1);
    lemma_kept_iff_index(start * k, end * k, step * k, c, l2);
    assert(l1 == l2);
    let a = fixed_range(start * k, end * k, step * k, c);
    let b = fixed_range(start, end, step, c).map_values(|x: int| x * k);
    assert forall|j: int| 0 <= j < a.len() implies a[j] == b[j] by {
        let f = first_index(c);
        assert(start * k + (f + j) * (step * k) == (start + (f + j) * step) * k) by (nonlinear_arith);
    }
    assert(a =~= b);
}

/// A fixed interval that is a whole number of units of `tu` gives, from bounds
/// in `tu`, the range that it gives from the same bounds in nanoseconds, each
/// value read in `tu`.
pub proof fn lemma_unit_consistency(start: int, end: int, d: Duration, c: ClosedWindow, tu: TimeUnit)
    requires
        d.nsecs > 0,
        d.nsecs as int % ns_per_unit(tu) == 0,
    ensures
        fixed_range(
            start * ns_per_unit(tu),
            end * ns_per_unit(tu),
            fixed_step(d, TimeUnit::Nanoseconds),
            c,
        ) == fixed_range(start, end, fixed_step(d, tu), c).map_values(|x: int| x * ns_per_unit(tu)),
{
    let k = ns_per_unit(tu);
    let n = d.nsecs as int;
    lemma_fundamental_div_mod(n, k);
    assert(n == (n / k) * k) by (nonlinear_arith)
        requires
            n == k * (n / k) + n % k,
            n % k == 0,
    ;
    assert(n / k > 0) by (nonlinear_arith)
        requires
            n == (n / k) * k,
            n > 0,
            k > 0,
    ;
    assert(fixed_step(d, TimeUnit::Nanoseconds) == n);
    lemma_fixed_range_scaled(start, end, n / k, c, k);
}

} // verus!
