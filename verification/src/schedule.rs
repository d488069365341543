//! Breakpoint schedules: equal-interval generation, validation of a daily
//! cycle with at most one midnight wraparound, and selection of the image
//! active at a given time.

use vstd::prelude::*;

use vstd::string::StringExecFns;

use crate::errors::{ConfigFileErrors, Errors, SelectionErrors};
use crate::time_track::{twelve_hour_chars, Time};

verus! {

/// Spec-level view of a breakpoint slice: the sequence of minute counts.
pub open spec fn minutes_of(times: Seq<Time>) -> Seq<int> {
    times.map_values(|t: Time| t@)
}

/// State carried by the validation walk over a breakpoint sequence.
///
/// The walk maintains two ascending runs: the primary run, seeded at the
/// first breakpoint, and at most one secondary run for values smaller than
/// the first breakpoint (the continuation after the schedule crosses
/// midnight). It also records whether each run has produced an end-of-day
/// sentinel, and the first error found, which is sticky.
pub ghost struct ValWalk {
    /// Greatest value accepted into the primary run so far (forced to 1440
    /// once the secondary run opens: after the wrap, no value below the
    /// sentinel may rejoin the primary run).
    pub primary_max: int,
    /// Whether the secondary (post-midnight) run has opened.
    pub opened: bool,
    /// Greatest value accepted into the secondary run so far.
    pub secondary_max: int,
    /// Whether the primary run has seen the 1440 sentinel.
    pub primary_eod: bool,
    /// Whether a 1440 sentinel has appeared after the wrap.
    pub secondary_eod: bool,
    /// First violation found, if any.
    pub error: Option<ConfigFileErrors>,
}

/// Walk state before any element has been examined.
pub open spec fn val_init(start: int) -> ValWalk {
    ValWalk {
        primary_max: start,
        opened: false,
        secondary_max: 0,
        primary_eod: false,
        secondary_eod: false,
        error: None,
    }
}

/// One step of the validation walk on element `t`.
///
/// A value `>= start` must extend the primary run (be `>=` its maximum),
/// else the order is violated. The first value `< start` opens the
/// secondary run and bars the primary run below the sentinel; later values
/// `< start` must extend the secondary run. A sentinel seen both before
/// and after the wrap means two days' entries were merged.
pub open spec fn val_step(start: int, st: ValWalk, t: int) -> ValWalk {
    if st.error is Some {
        st
    } else if t >= start {
        if t >= st.primary_max {
            let ext = ValWalk {
                primary_max: t,
                primary_eod: st.primary_eod || (t == 1440 && !st.opened),
                secondary_eod: st.secondary_eod || (t == 1440 && st.opened),
                ..st
            };
            if ext.primary_eod && ext.secondary_eod {
                ValWalk { error: Some(ConfigFileErrors::FileTimeMismatch), ..ext }
            } else {
                ext
            }
        } else {
            ValWalk { error: Some(ConfigFileErrors::OutOfOrder), ..st }
        }
    } else {
        if !st.opened {
            ValWalk { opened: true, primary_max: 1440, secondary_max: t, ..st }
        } else if t >= st.secondary_max {
            ValWalk { secondary_max: t, ..st }
        } else {
            ValWalk { error: Some(ConfigFileErrors::OutOfOrder), ..st }
        }
    }
}

/// The walk state after examining all of `s` (including its first element,
/// which is always a no-op extension of the primary run).
pub open spec fn val_walk(start: int, s: Seq<int>) -> ValWalk
    decreases s.len(),
{
    if s.len() == 0 {
        val_init(start)
    } else {
        val_step(start, val_walk(start, s.drop_last()), s.last())
    }
}

/// What validation returns on a sequence of minute counts: the first
/// breakpoint on success, or the first violation found by the walk.
pub open spec fn validate_spec(s: Seq<int>) -> Result<int, ConfigFileErrors> {
    if s.len() == 0 {
        Err(ConfigFileErrors::Empty)
    } else {
        match val_walk(s[0], s).error {
            Some(e) => Err(e),
            None => Ok(s[0]),
        }
    }
}

/// Once the walk has found an error, every extension of the walk keeps it.
pub proof fn lemma_val_walk_error_persists(start: int, s: Seq<int>, n: int)
    requires
        0 <= n <= s.len(),
        val_walk(start, s.take(n)).error is Some,
    ensures
        val_walk(start, s).error == val_walk(start, s.take(n)).error,
    decreases s.len() - n,
{
    if n == s.len() {
        assert(s.take(n) =~= s);
    } else {
        assert(s.take(n + 1).drop_last() =~= s.take(n));
        assert(s.take(n + 1).last() == s[n]);
        lemma_val_walk_error_persists(start, s, n + 1);
    }
}

/// Checks that a breakpoint sequence forms one coherent daily cycle:
/// ascending, with at most one drop below the first element (the crossing
/// of midnight), never descending within either run, and with at most one
/// end-of-day sentinel per day. Returns the first breakpoint on success.
pub fn validate(times: &[Time]) -> (r: Result<Time, ConfigFileErrors>)
    ensures
        ({
            let s = minutes_of(times@);
            match r {
                Ok(t) => validate_spec(s) == Ok::<int, ConfigFileErrors>(t@) && t == times@[0],
                Err(e) => validate_spec(s) == Err::<int, ConfigFileErrors>(e),
            }
        }),
{
    let ghost s = minutes_of(times@);
    if times.len() == 0 {
        return Err(ConfigFileErrors::Empty);
    }
    let start: u32 = times[0].total_mins;
    let mut primary_max: u32 = start;
    let mut opened: bool = false;
    let mut secondary_max: u32 = 0;
    let mut primary_eod: bool = false;
    let mut secondary_eod: bool = false;
    let mut i: usize = 0;
    while i < times.len()
        invariant
            0 <= i <= times@.len(),
            s == minutes_of(times@),
            s.len() == times@.len(),
            times@.len() > 0,
            start == s[0],
            val_walk(s[0], s.take(i as int)) == (ValWalk {
                primary_max: primary_max as int,
                opened,
                secondary_max: secondary_max as int,
                primary_eod,
                secondary_eod,
                error: None::<ConfigFileErrors>,
            }),
        decreases times@.len() - i,
    {
        let t: u32 = times[i].total_mins;
        proof {
            assert(s.take(i + 1).drop_last() =~= s.take(i as int));
            assert(s.take(i + 1).last() == s[i as int]);
            assert(s[i as int] == t as int);
        }
        if t >= start {
            if t >= primary_max {
                primary_max = t;
                if t == 1440 {
                    if opened {
                        secondary_eod = true;
                    } else {
                        primary_eod = true;
                    }
                }
                if primary_eod && secondary_eod {
                    proof {
                        lemma_val_walk_error_persists(s[0], s, i + 1);
                    }
                    return Err(ConfigFileErrors::FileTimeMismatch);
                }
            } else {
                proof {
                    lemma_val_walk_error_persists(s[0], s, i + 1);
                }
                return Err(ConfigFileErrors::OutOfOrder);
            }
        } else {
            if !opened {
                opened = true;
                primary_max = 1440;
                secondary_max = t;
            } else if t >= secondary_max {
                secondary_max = t;
            } else {
                proof {
                    lemma_val_walk_error_persists(s[0], s, i + 1);
                }
                return Err(ConfigFileErrors::OutOfOrder);
            }
        }
        i = i + 1;
    }
    proof {
        assert(s.take(times@.len() as int) =~= s);
    }
    Ok(times[0])
}

/// Computes the `image_count` equally spaced breakpoints that divide the
/// day, starting at midnight: `[0, step, 2*step, ...]` with
/// `step = 1440 / image_count` minutes. Fails exactly when the day cannot
/// be split into `image_count` whole-minute intervals.
pub fn generate(image_count: usize) -> (r: Result<Vec<Time>, Errors>)
    ensures
        (image_count == 0 || 1440int % (image_count as int) != 0) ==> r == Err::<
            Vec<Time>,
            Errors,
        >(Errors::CountCompatError(image_count)),
        (image_count != 0 && 1440int % (image_count as int) == 0) ==> {
            &&& r is Ok
            &&& r->Ok_0@.len() == image_count
            &&& forall|i: int|
                0 <= i < image_count ==> r->Ok_0@[i]@ == i * (1440int / (image_count as int))
            &&& r->Ok_0@[0]@ == 0
            &&& forall|i: int|
                1 <= i < image_count ==> #[trigger] r->Ok_0@[i]@ == r->Ok_0@[i - 1]@ + (
                1440int / (image_count as int))
        },
{
    if image_count == 0 || 1440 % image_count != 0 {
        return Err(Errors::CountCompatError(image_count));
    }
    let step: u32 = (1440 / image_count) as u32;
    proof {
        assert(image_count <= 1440) by {
            if image_count > 1440 {
                assert(1440int % (image_count as int) == 1440) by (nonlinear_arith)
                    requires image_count > 1440;
            }
        };
        vstd::arithmetic::div_mod::lemma_fundamental_div_mod(1440, image_count as int);
        assert((image_count as int) * (step as int) == 1440);
    }
    let mut v: Vec<Time> = Vec::new();
    let mut i: usize = 0;
    while i < image_count
        invariant
            0 <= i <= image_count,
            image_count <= 1440,
            step == 1440int / (image_count as int),
            (image_count as int) * (step as int) == 1440,
            v@.len() == i,
            forall|j: int| 0 <= j < i ==> v@[j]@ == j * (step as int),
        decreases image_count - i,
    {
        proof {
            vstd::arithmetic::mul::lemma_mul_inequality(
                i as int,
                image_count as int,
                step as int,
            );
            assert((i as int) * (step as int) <= 1440);
        }
        v.push(Time::new((i as u32) * step));
        i = i + 1;
    }
    proof {
        assert forall|i: int| 1 <= i < image_count implies #[trigger] v@[i]@ == v@[i - 1]@ + (
        step as int) by {
            assert((i - 1) * (step as int) + (step as int) == i * (step as int))
                by (nonlinear_arith);
        }
    }
    Ok(v)
}

/// Full pre-selection checking, as performed once per scheduling session:
/// the breakpoint sequence must validate, a first breakpoint must have been
/// extracted, and the image count must divide the day evenly. Returns the
/// extracted first breakpoint on success.
pub fn error_checking(times: &[Time], loop_time: Option<&Time>, dir_count: usize) -> (r: Result<
    Time,
    Errors,
>)
    ensures
        ({
            let s = minutes_of(times@);
            match validate_spec(s) {
                Err(e) => r == Err::<Time, Errors>(Errors::ConfigFileError(e)),
                Ok(v) => match loop_time {
                    None => r == Err::<Time, Errors>(
                        Errors::ConfigFileError(ConfigFileErrors::Empty),
                    ),
                    Some(t) => if dir_count == 0 || 1440int % (dir_count as int) != 0 {
                        r == Err::<Time, Errors>(Errors::CountCompatError(dir_count))
                    } else {
                        r == Ok::<Time, Errors>(*t)
                    },
                },
            }
        }),
{
    match validate(times) {
        Err(e) => Err(Errors::ConfigFileError(e)),
        Ok(_first) => match loop_time {
            None => Err(Errors::ConfigFileError(ConfigFileErrors::Empty)),
            Some(t) => if dir_count == 0 || 1440 % dir_count != 0 {
                Err(Errors::CountCompatError(dir_count))
            } else {
                Ok(*t)
            },
        },
    }
}

/// Walking a strictly ascending, sentinel-free arithmetic sequence from
/// midnight keeps the primary run growing and never opens the secondary
/// run, trips a sentinel flag, or finds an error.
proof fn lemma_uniform_walk(s: Seq<int>, n: int, step: int, k: int)
    requires
        1 <= n,
        1 <= step,
        n * step == 1440,
        s.len() == n,
        forall|i: int| 0 <= i < n ==> s[i] == i * step,
        0 <= k <= n,
    ensures
        val_walk(0, s.take(k)) == (ValWalk {
            primary_max: if k == 0 { 0 } else { (k - 1) * step },
            opened: false,
            secondary_max: 0,
            primary_eod: false,
            secondary_eod: false,
            error: None::<ConfigFileErrors>,
        }),
    decreases k,
{
    if k == 0 {
        assert(s.take(0) =~= Seq::<int>::empty());
    } else {
        lemma_uniform_walk(s, n, step, k - 1);
        assert(s.take(k).drop_last() =~= s.take(k - 1));
        assert(s.take(k).last() == s[k - 1]);
        let t = (k - 1) * step;
        assert(0 <= t && (k == 1 ==> t == 0)) by (nonlinear_arith)
            requires 1 <= k, 1 <= step, t == (k - 1) * step;
        assert(k >= 2 ==> (k - 2) * step <= t) by (nonlinear_arith)
            requires 1 <= step, t == (k - 1) * step;
        assert(t <= 1440 - step) by (nonlinear_arith)
            requires k <= n, 1 <= step, n * step == 1440, t == (k - 1) * step;
    }
}

/// Round trip: every breakpoint sequence the generator produces passes
/// validation without error, returning midnight as the schedule's start.
pub proof fn lemma_generate_validates(s: Seq<int>, n: int)
    requires
        1 <= n,
        1440int % n == 0,
        s.len() == n,
        forall|i: int| 0 <= i < n ==> s[i] == i * (1440int / n),
    ensures
        validate_spec(s) == Ok::<int, ConfigFileErrors>(0),
{
    let step = 1440int / n;
    vstd::arithmetic::div_mod::lemma_fundamental_div_mod(1440, n);
    assert(n * step == 1440);
    assert(1 <= step) by (nonlinear_arith)
        requires 1 <= n, n * step == 1440;
    lemma_uniform_walk(s, n, step, n);
    assert(s.take(n) =~= s);
    assert(s[0] == 0);
}

/// The exclusive end of the window that index `i` owns: the next
/// breakpoint, or the end-of-day sentinel after the last one.
pub open spec fn window_end(b: Seq<int>, i: int) -> int {
    if i + 1 < b.len() {
        b[i + 1]
    } else {
        1440
    }
}

/// The inclusive start of the window that index `i` owns. A start that
/// lies numerically after its end marks the new-day discontinuity, and is
/// replaced by midnight for this window's comparison only.
pub open spec fn window_start(b: Seq<int>, i: int) -> int {
    if b[i] > window_end(b, i) {
        0
    } else {
        b[i]
    }
}

/// Two consecutive end-of-day sentinels cannot bound a real interval.
pub open spec fn mismatch_at(b: Seq<int>, i: int) -> bool {
    window_start(b, i) == 1440 && window_end(b, i) == 1440
}

/// Whether some window of the scan is bounded by two sentinels.
pub open spec fn has_mismatch(b: Seq<int>) -> bool {
    exists|i: int| 0 <= i < b.len() && mismatch_at(b, i)
}

/// Whether `now` falls inside the half-open window of index `i`.
pub open spec fn matches_at(b: Seq<int>, now: int, i: int) -> bool {
    window_start(b, i) <= now < window_end(b, i)
}

/// The greatest index below `n` whose window contains `now`, or `-1` if
/// there is none: the scan records every match and the last one wins.
pub open spec fn last_match(b: Seq<int>, now: int, n: int) -> int
    decreases n,
{
    if n <= 0 {
        -1
    } else if matches_at(b, now, n - 1) {
        n - 1
    } else {
        last_match(b, now, n - 1)
    }
}

/// The index of the image selected for `now`: the last window containing
/// `now`, or, when no window does (because `now` precedes the first
/// breakpoint of the wrapped day), the day's final image.
pub open spec fn selected_index(b: Seq<int>, now: int) -> int {
    if last_match(b, now, b.len() as int) >= 0 {
        last_match(b, now, b.len() as int)
    } else {
        b.len() - 1
    }
}

/// Everything selection promises, over the views of its inputs and result:
/// an empty schedule is refused; a schedule with a sentinel-bounded window
/// is refused; otherwise the image at `selected_index` is returned.
pub open spec fn select_post(
    b: Seq<int>,
    imgs: Seq<Seq<char>>,
    now: int,
    r: Result<Seq<char>, Errors>,
) -> bool {
    if b.len() == 0 {
        r == Err::<Seq<char>, Errors>(Errors::SelectionError(SelectionErrors::Empty))
    } else if has_mismatch(b) {
        r == Err::<Seq<char>, Errors>(Errors::ConfigFileError(ConfigFileErrors::FileTimeMismatch))
    } else {
        r == Ok::<Seq<char>, Errors>(imgs[selected_index(b, now)])
    }
}

/// Spec-level view of an image slice: the sequence of identifier texts.
pub open spec fn texts_of(images: Seq<String>) -> Seq<Seq<char>> {
    images.map_values(|s: String| s@)
}

/// Determines which image is active at `now` under the given breakpoints:
/// a single linear scan over the windows `[b[i], b[i+1])` (the last window
/// ends at the end-of-day sentinel), resetting a window that straddles
/// midnight, and falling back to the day's last image when no window
/// contains `now`.
pub fn select(now: &Time, breakpoints: &[Time], images: &[String]) -> (r: Result<String, Errors>)
    requires
        breakpoints@.len() == images@.len(),
    ensures
        ({
            let lifted = match r {
                Ok(img) => Ok::<Seq<char>, Errors>(img@),
                Err(e) => Err::<Seq<char>, Errors>(e),
            };
            select_post(minutes_of(breakpoints@), texts_of(images@), now@, lifted)
        }),
{
    let ghost b = minutes_of(breakpoints@);
    let len = breakpoints.len();
    if len == 0 {
        return Err(Errors::SelectionError(SelectionErrors::Empty));
    }
    let now_m: u32 = now.total_mins;
    let mut sel: usize = len - 1;
    let mut found: bool = false;
    let mut i: usize = 0;
    while i < len
        invariant
            0 <= i <= len,
            len == b.len(),
            b == minutes_of(breakpoints@),
            breakpoints@.len() == images@.len(),
            now_m as int == now@,
            forall|j: int| 0 <= j < i ==> !mismatch_at(b, j),
            found ==> 0 <= sel < len && last_match(b, now@, i as int) == sel,
            !found ==> last_match(b, now@, i as int) == -1 && sel == len - 1,
        decreases len - i,
    {
        let ws_raw: u32 = breakpoints[i].total_mins;
        let we: u32 = if i + 1 < len {
            breakpoints[i + 1].total_mins
        } else {
            1440
        };
        let ws: u32 = if ws_raw > we {
            0
        } else {
            ws_raw
        };
        proof {
            assert(b[i as int] == ws_raw as int);
            assert(window_end(b, i as int) == we as int);
            assert(window_start(b, i as int) == ws as int);
        }
        if ws == 1440 && we == 1440 {
            proof {
                assert(mismatch_at(b, i as int));
            }
            return Err(Errors::ConfigFileError(ConfigFileErrors::FileTimeMismatch));
        }
        if ws <= now_m && now_m < we {
            sel = i;
            found = true;
        }
        i = i + 1;
    }
    proof {
        assert(!has_mismatch(b));
        assert(selected_index(b, now@) == sel as int);
    }
    Ok(images[sel].clone())
}

/// The exact text of one schedule-preview line: the image identifier and
/// the 12-hour rendering of its breakpoint.
pub open spec fn schedule_line_chars(img: Seq<char>, total: int) -> Seq<char> {
    "Image: "@ + img + " Time: "@ + twelve_hour_chars(total)
}

/// Builds the schedule preview for an equal-interval schedule: one line
/// per image, in breakpoint order, pairing each image with the equally
/// spaced breakpoint it becomes active at. Fails exactly when the image
/// count cannot split the day into whole-minute equal intervals.
pub fn schedule_lines(images: &[String]) -> (r: Result<Vec<String>, Errors>)
    ensures
        (images@.len() == 0 || 1440int % (images@.len() as int) != 0) ==> r == Err::<
            Vec<String>,
            Errors,
        >(Errors::CountCompatError(images@.len() as usize)),
        (images@.len() != 0 && 1440int % (images@.len() as int) == 0) ==> {
            &&& r is Ok
            &&& r->Ok_0@.len() == images@.len()
            &&& forall|i: int|
                0 <= i < images@.len() ==> r->Ok_0@[i]@ == schedule_line_chars(
                    images@[i]@,
                    i * (1440int / (images@.len() as int)),
                )
        },
{
    let count = images.len();
    if count == 0 || 1440 % count != 0 {
        return Err(Errors::CountCompatError(count));
    }
    let step: u32 = (1440 / count) as u32;
    proof {
        assert(count <= 1440) by {
            if count > 1440 {
                assert(1440int % (count as int) == 1440) by (nonlinear_arith)
                    requires count > 1440;
            }
        };
        vstd::arithmetic::div_mod::lemma_fundamental_div_mod(1440, count as int);
        assert((count as int) * (step as int) == 1440);
    }
    let mut lines: Vec<String> = Vec::new();
    let mut i: usize = 0;
    while i < count
        invariant
            0 <= i <= count,
            count == images@.len(),
            count <= 1440,
            step == 1440int / (count as int),
            (count as int) * (step as int) == 1440,
            lines@.len() == i,
            forall|j: int|
                0 <= j < i ==> lines@[j]@ == schedule_line_chars(
                    images@[j]@,
                    j * (step as int),
                ),
        decreases count - i,
    {
        proof {
            vstd::arithmetic::mul::lemma_mul_inequality(i as int, count as int, step as int);
            assert((i as int) * (step as int) <= 1440);
        }
        let t = Time::new((i as u32) * step);
        let rendered = t.twelve_hour();
        let line = String::from_str("Image: ").concat(images[i].as_str()).concat(
            " Time: ",
        ).concat(rendered.as_str());
        proof {
            assert(line@ =~= schedule_line_chars(images@[i as int]@, (i as int) * (step as int)));
        }
        lines.push(line);
        i = i + 1;
    }
    Ok(lines)
}

/// Selection is idempotent: its outcome is a function of the current time,
/// the breakpoints and the images alone, so any two results that selection
/// may return for the same inputs are equal.
pub proof fn lemma_select_idempotent(
    b: Seq<int>,
    imgs: Seq<Seq<char>>,
    now: int,
    r1: Result<Seq<char>, Errors>,
    r2: Result<Seq<char>, Errors>,
)
    requires
        select_post(b, imgs, now, r1),
        select_post(b, imgs, now, r2),
    ensures
        r1 == r2,
{
}

} // verus!

