//! The two counting permit pools that bound the pipeline's concurrency — one
//! gating whole collection runs, one gating per-article tasks — and the
//! round-based duration estimates those bounds imply.

use vstd::prelude::*;

use crate::div_ceil;

verus! {

/// A counting permit pool: a fixed capacity of permits, each acquired before
/// a unit of work starts and released when it ends, success or failure. At
/// no point are more than `capacity` permits out.
pub struct PermitPool {
    permits_num: usize,
    available: usize,
}

impl PermitPool {
    /// No more permits circulate than the pool was created with.
    pub closed spec fn wf(self) -> bool {
        self.available <= self.permits_num
    }

    /// The fixed number of permits.
    pub closed spec fn capacity(self) -> int {
        self.permits_num as int
    }

    /// Permits not currently held.
    pub closed spec fn available(self) -> int {
        self.available as int
    }

    /// Permits currently held: the number of units of work running at once.
    pub open spec fn in_use(self) -> int {
        self.capacity() - self.available()
    }

    /// The concurrency bound itself: a well-formed pool never has more than
    /// `capacity` permits out, and never a negative number.
    pub proof fn lemma_in_use_bounded(self)
        requires
            self.wf(),
        ensures
            0 <= self.in_use() <= self.capacity(),
    {
    }

    pub fn new(permits_num: usize) -> (r: PermitPool)
        ensures
            r.wf(),
            r.capacity() == permits_num,
            r.available() == permits_num,
    {
        PermitPool { permits_num, available: permits_num }
    }

    /// Hands a permit out when one is free; a unit of work starts only on
    /// `true`.
    pub fn try_acquire(&mut self) -> (granted: bool)
        requires
            old(self).wf(),
        ensures
            final(self).wf(),
            final(self).capacity() == old(self).capacity(),
            granted == (old(self).available() > 0),
            granted ==> final(self).available() == old(self).available() - 1,
            !granted ==> final(self).available() == old(self).available(),
    {
        if self.available > 0 {
            self.available = self.available - 1;
            true
        } else {
            false
        }
    }

    /// Returns a held permit to the pool.
    pub fn release(&mut self)
        requires
            old(self).wf(),
            old(self).in_use() > 0,
        ensures
            final(self).wf(),
            final(self).capacity() == old(self).capacity(),
            final(self).available() == old(self).available() + 1,
    {
        self.available = self.available + 1;
    }
}

/// The pipeline gate's configuration.
pub struct Config {
    /// How many collection runs may be underway at once.
    pub case_permits_num: usize,
}

/// The pipeline gate: owns the case-level permit pool, so that overlapping
/// invocations of the whole pipeline queue on a permit instead of running
/// unthrottled.
pub struct Workshop {
    case_permits: PermitPool,
}

impl Workshop {
    /// The case-level pool.
    pub closed spec fn pool(self) -> PermitPool {
        self.case_permits
    }

    pub fn new(config: Config) -> (r: Workshop)
        ensures
            r.pool().wf(),
            r.pool().capacity() == config.case_permits_num,
            r.pool().in_use() == 0,
    {
        Workshop { case_permits: PermitPool::new(config.case_permits_num) }
    }

    /// Asks leave to run one case; the case runs only on `true`, and then
    /// owes one `end_case`.
    pub fn begin_case(&mut self) -> (granted: bool)
        requires
            old(self).pool().wf(),
        ensures
            final(self).pool().wf(),
            final(self).pool().capacity() == old(self).pool().capacity(),
            granted == (old(self).pool().in_use() < old(self).pool().capacity()),
            granted ==> final(self).pool().in_use() == old(self).pool().in_use() + 1,
            !granted ==> final(self).pool().in_use() == old(self).pool().in_use(),
    {
        self.case_permits.try_acquire()
    }

    /// Reports one case finished, however it ended.
    pub fn end_case(&mut self)
        requires
            old(self).pool().wf(),
            old(self).pool().in_use() > 0,
        ensures
            final(self).pool().wf(),
            final(self).pool().capacity() == old(self).pool().capacity(),
            final(self).pool().in_use() == old(self).pool().in_use() - 1,
    {
        self.case_permits.release()
    }
}

/// The ceiling of `a / b`, on machine words.
pub fn div_ceil_usize(a: usize, b: usize) -> (r: usize)
    requires
        b > 0,
    ensures
        r == div_ceil(a as int, b as int),
{
    let q = a / b;
    let rem = a % b;
    if rem != 0 {
        proof {
            vstd::arithmetic::div_mod::lemma_fundamental_div_mod(a as int, b as int);
            assert(a as int == (b as int) * (q as int) + (rem as int));
            assert((q as int) < a as int) by (nonlinear_arith)
                requires
                    a as int == (b as int) * (q as int) + (rem as int),
                    (b as int) > 0,
                    (rem as int) > 0,
                    (q as int) >= 0,
            ;
        }
        q + 1
    } else {
        q
    }
}

/// With `permits` workers and `tasks` equal tasks of duration `each`, the
/// work settles in waves: `ceil(tasks / permits)` of them, `each` long.
pub open spec fn spec_wave_duration(tasks: int, permits: int, each: int) -> int {
    div_ceil(tasks, permits) * each
}

/// Which wave of permit-bounded execution the `i`th task joins when at most
/// `permits` tasks run at a time and each wave runs one permit's worth.
pub open spec fn wave_of(i: int, permits: int) -> int {
    i / permits
}

/// A wave holds exactly the tasks whose index falls in its own window of
/// `permits` positions — so never more tasks at once than there are permits.
pub proof fn lemma_wave_window(i: int, k: int, permits: int)
    requires
        permits > 0,
        i >= 0,
        k >= 0,
    ensures
        wave_of(i, permits) == k <==> k * permits <= i < (k + 1) * permits,
{
    vstd::arithmetic::div_mod::lemma_fundamental_div_mod(i, permits);
    assert(i == permits * (i / permits) + i % permits);
    if wave_of(i, permits) == k {
        assert(i == permits * k + i % permits);
        assert(k * permits <= i < (k + 1) * permits) by (nonlinear_arith)
            requires
                i == permits * k + i % permits,
                0 <= i % permits < permits,
        ;
    }
    if k * permits <= i < (k + 1) * permits {
        assert(0 <= i - k * permits < permits) by (nonlinear_arith)
            requires
                k * permits <= i < (k + 1) * permits,
        ;
        let r = i - k * permits;
        assert(i == k * permits + r);
        vstd::arithmetic::div_mod::lemma_fundamental_div_mod_converse_div(i, permits, k, r);
    }
}

/// Every task of a run of `tasks` tasks lies in a wave before
/// `ceil(tasks / permits)`: the whole run settles within that many waves,
/// which is what the duration estimates count.
pub proof fn lemma_waves_cover(tasks: int, permits: int)
    requires
        permits > 0,
        tasks >= 0,
    ensures
        forall|i: int| 0 <= i < tasks ==> #[trigger] wave_of(i, permits) < div_ceil(tasks, permits),
{
    assert forall|i: int| 0 <= i < tasks implies #[trigger] wave_of(i, permits) < div_ceil(tasks, permits) by {
        vstd::arithmetic::div_mod::lemma_fundamental_div_mod(i, permits);
        vstd::arithmetic::div_mod::lemma_fundamental_div_mod(tasks, permits);
        let k = wave_of(i, permits);
        let m = tasks / permits;
        if k >= div_ceil(tasks, permits) {
            lemma_wave_window(i, k, permits);
            if tasks % permits == 0 {
                assert(k >= m);
                assert(i >= k * permits >= m * permits) by (nonlinear_arith)
                    requires k >= m, permits > 0, k * permits <= i, m >= 0,
                ;
                assert(tasks == permits * m + 0);
                assert(m * permits == permits * m) by (nonlinear_arith);
            } else {
                assert(k >= m + 1);
                assert(i >= k * permits >= (m + 1) * permits) by (nonlinear_arith)
                    requires k >= m + 1, permits > 0, k * permits <= i, m >= -1,
                ;
                assert((m + 1) * permits == permits * m + permits) by (nonlinear_arith);
                assert(tasks == permits * m + tasks % permits);
            }
            assert(false);
        }
    }
}

/// The expected wall time of one collection run: the first page load, then
/// the articles of all pages — `pages_num * page_news_num` tasks — worked
/// off under the task-permit bound in waves of `news_load_duration` each.
/// None when the estimate does not fit the word.
pub fn estimated_case_duration(
    page_load_duration: u64,
    pages_num: u64,
    page_news_num: u64,
    task_permits_num: u64,
    news_load_duration: u64,
) -> (r: Option<u64>)
    requires
        task_permits_num > 0,
    ensures
        r matches Some(d) ==> d == page_load_duration
            + spec_wave_duration(pages_num * page_news_num, task_permits_num as int, news_load_duration as int),
        r is None ==> pages_num * page_news_num > u64::MAX
            || page_load_duration
                + spec_wave_duration(pages_num * page_news_num, task_permits_num as int, news_load_duration as int)
                > u64::MAX,
{
    let tasks = match pages_num.checked_mul(page_news_num) {
        Some(tasks) => tasks,
        None => {
            return None;
        }
    };
    let q = tasks / task_permits_num;
    let rem = tasks % task_permits_num;
    let waves: u64 = if rem != 0 {
        proof {
            vstd::arithmetic::div_mod::lemma_fundamental_div_mod(tasks as int, task_permits_num as int);
            assert(tasks as int == (task_permits_num as int) * (q as int) + (rem as int));
            assert((q as int) < tasks as int) by (nonlinear_arith)
                requires
                    tasks as int == (task_permits_num as int) * (q as int) + (rem as int),
                    (task_permits_num as int) > 0,
                    (rem as int) > 0,
                    (q as int) >= 0,
            ;
        }
        q + 1
    } else {
        q
    };
    let worked = match waves.checked_mul(news_load_duration) {
        Some(worked) => worked,
        None => {
            return None;
        }
    };
    page_load_duration.checked_add(worked)
}

/// With `case_permits` running slots and `cases` equal runs of duration
/// `case_duration`, total wall time scales by the number of waves:
/// `ceil(cases / case_permits)`. None when the estimate does not fit the
/// word.
pub fn estimated_schedule_duration(cases_num: u64, case_permits_num: u64, case_duration: u64) -> (r: Option<u64>)
    requires
        case_permits_num > 0,
    ensures
        r matches Some(d) ==> d == spec_wave_duration(cases_num as int, case_permits_num as int, case_duration as int),
        r is None ==> spec_wave_duration(cases_num as int, case_permits_num as int, case_duration as int) > u64::MAX,
{
    let q = cases_num / case_permits_num;
    let rem = cases_num % case_permits_num;
    let waves: u64 = if rem != 0 {
        proof {
            vstd::arithmetic::div_mod::lemma_fundamental_div_mod(cases_num as int, case_permits_num as int);
            assert(cases_num as int == (case_permits_num as int) * (q as int) + (rem as int));
            assert((q as int) < cases_num as int) by (nonlinear_arith)
                requires
                    cases_num as int == (case_permits_num as int) * (q as int) + (rem as int),
                    (case_permits_num as int) > 0,
                    (rem as int) > 0,
                    (q as int) >= 0,
            ;
        }
        q + 1
    } else {
        q
    };
    match waves.checked_mul(case_duration) {
        Some(d) => Some(d),
        None => None,
    }
}

} // verus!
