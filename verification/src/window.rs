//! Decisions around the main webview: how often the system browser may be
//! asked to open a link, when a crashed web process is reloaded, and the
//! texts of download notifications. Times are monotonic nanoseconds.
use vstd::prelude::*;


verus! {

/// Links repeated within this span (2 s) open only once.
pub const OPEN_REPEAT_NS: u64 = 2_000_000_000;

/// Crashes are counted over this span (60 s).
pub const CRASH_WINDOW_NS: u64 = 60_000_000_000;

/// At most this many reloads within `CRASH_WINDOW_NS`.
pub const MAX_RELOADS: usize = 3;

/// Time from `earlier` to `now`, zero if `now` is not later
/// (`Instant::duration_since` saturates the same way).
pub open spec fn elapsed(earlier: u64, now: u64) -> int {
    if now >= earlier {
        now - earlier
    } else {
        0
    }
}

fn elapsed_exec(earlier: u64, now: u64) -> (d: u64)
    ensures
        d == elapsed(earlier, now),
{
    if now >= earlier {
        now - earlier
    } else {
        0
    }
}

/// The links handed to the system browser less than `OPEN_REPEAT_NS` ago,
/// each with the time it was opened, oldest first.
pub struct OpenThrottle {
    opened: Vec<(String, u64)>,
}

impl View for OpenThrottle {
    type V = Seq<(Seq<char>, u64)>;

    closed spec fn view(&self) -> Seq<(Seq<char>, u64)> {
        self.opened@.map_values(|p: (String, u64)| (p.0@, p.1))
    }
}

/// Whether `url` at `now` repeats a recorded open of the same URL less than
/// `OPEN_REPEAT_NS` before.
pub open spec fn is_repeat(record: Seq<(Seq<char>, u64)>, url: Seq<char>, now: u64) -> bool {
    exists|i: int|
        0 <= i < record.len() && (#[trigger] record[i]).0 == url && elapsed(record[i].1, now)
            < OPEN_REPEAT_NS
}

/// The recorded opens still less than `OPEN_REPEAT_NS` before `now`.
pub open spec fn recent_opens(record: Seq<(Seq<char>, u64)>, now: u64) -> Seq<(Seq<char>, u64)>
    decreases record.len(),
{
    if record.len() == 0 {
        record
    } else if elapsed(record.last().1, now) < OPEN_REPEAT_NS {
        recent_opens(record.drop_last(), now).push(record.last())
    } else {
        recent_opens(record.drop_last(), now)
    }
}

/// The record after a call at `now` for `url`: unchanged when refused,
/// else the recent opens followed by this one.
pub open spec fn throttle_step(record: Seq<(Seq<char>, u64)>, url: Seq<char>, now: u64) -> Seq<
    (Seq<char>, u64),
> {
    if is_repeat(record, url, now) {
        record
    } else {
        recent_opens(record, now).push((url, now))
    }
}

impl OpenThrottle {
    pub fn new() -> (t: Self)
        ensures
            t@ == Seq::<(Seq<char>, u64)>::empty(),
    {
        let t = OpenThrottle { opened: Vec::new() };
        assert(t@ =~= Seq::<(Seq<char>, u64)>::empty());
        t
    }

    /// Whether to hand `url` to the system browser at `now`. Subframe
    /// navigations and redirect hops can fire the handlers again: an open of
    /// the same URL less than `OPEN_REPEAT_NS` earlier refuses it and leaves
    /// the record as it was; otherwise it is opened and recorded, and opens
    /// that no longer matter are forgotten.
    pub fn should_open(&mut self, url: &str, now: u64) -> (open: bool)
        ensures
            open == !is_repeat(old(self)@, url@, now),
            final(self)@ == throttle_step(old(self)@, url@, now),
    {
        let ghost rec = self@;
        let target = String::from_str(url);
        let mut i: usize = 0;
        while i < self.opened.len()
            invariant
                i <= self.opened.len(),
                rec == self@,
                rec == self.opened@.map_values(|p: (String, u64)| (p.0@, p.1)),
                target@ == url@,
                forall|j: int|
                    0 <= j < i ==> !((#[trigger] rec[j]).0 == url@ && elapsed(rec[j].1, now)
                        < OPEN_REPEAT_NS),
            decreases self.opened.len() - i,
        {
            assert(rec[i as int] == (self.opened@[i as int].0@, self.opened@[i as int].1));
            if self.opened[i].0 == target && elapsed_exec(self.opened[i].1, now) < OPEN_REPEAT_NS {
                assert(rec[i as int].0 == url@ && elapsed(rec[i as int].1, now) < OPEN_REPEAT_NS);
                return false;
            }
            i = i + 1;
        }
        let mut kept: Vec<(String, u64)> = Vec::new();
        let mut k: usize = 0;
        while k < self.opened.len()
            invariant
                k <= self.opened.len(),
                rec == self.opened@.map_values(|p: (String, u64)| (p.0@, p.1)),
                kept@.map_values(|p: (String, u64)| (p.0@, p.1)) == recent_opens(
                    rec.take(k as int),
                    now,
                ),
            decreases self.opened.len() - k,
        {
            assert(rec.take(k + 1).drop_last() =~= rec.take(k as int));
            assert(rec.take(k + 1).last() == rec[k as int]);
            assert(rec[k as int] == (self.opened@[k as int].0@, self.opened@[k as int].1));
            if elapsed_exec(self.opened[k].1, now) < OPEN_REPEAT_NS {
                let ghost before = kept@;
                kept.push((self.opened[k].0.clone(), self.opened[k].1));
                assert(kept@.map_values(|p: (String, u64)| (p.0@, p.1)) =~= before.map_values(
                    |p: (String, u64)| (p.0@, p.1),
                ).push(rec[k as int]));
            }
            k = k + 1;
        }
        assert(rec.take(self.opened.len() as int) =~= rec);
        let ghost before = kept@;
        kept.push((target, now));
        assert(kept@.map_values(|p: (String, u64)| (p.0@, p.1)) =~= before.map_values(
            |p: (String, u64)| (p.0@, p.1),
        ).push((url@, now)));
        self.opened = kept;
        true
    }
}

/// The record after a run of calls `(url, time)`, from a fresh throttle.
pub open spec fn replay_opens(events: Seq<(Seq<char>, u64)>) -> Seq<(Seq<char>, u64)>
    decreases events.len(),
{
    if events.len() == 0 {
        Seq::empty()
    } else {
        throttle_step(replay_opens(events.drop_last()), events.last().0, events.last().1)
    }
}

/// Whether call `k` of the run opened its link.
pub open spec fn opened_at(events: Seq<(Seq<char>, u64)>, k: int) -> bool {
    !is_repeat(replay_opens(events.take(k)), events[k].0, events[k].1)
}

/// The calls come at times that never go back.
pub open spec fn times_nondecreasing(events: Seq<(Seq<char>, u64)>) -> bool {
    forall|i: int, j: int| 0 <= i <= j < events.len() ==> events[i].1 <= events[j].1
}

proof fn lemma_recent_opens_keeps(record: Seq<(Seq<char>, u64)>, now: u64, x: (Seq<char>, u64))
    requires
        record.contains(x),
        elapsed(x.1, now) < OPEN_REPEAT_NS,
    ensures
        recent_opens(record, now).contains(x),
    decreases record.len(),
{
    if record.last() == x {
        assert(recent_opens(record, now).last() == x);
    } else {
        let i = choose|i: int| 0 <= i < record.len() && record[i] == x;
        assert(record.drop_last()[i] == x);
        lemma_recent_opens_keeps(record.drop_last(), now, x);
        let r = recent_opens(record.drop_last(), now);
        let j = choose|j: int| 0 <= j < r.len() && r[j] == x;
        if elapsed(record.last().1, now) < OPEN_REPEAT_NS {
            assert(r.push(record.last())[j] == x);
        }
    }
}

/// After the first `m` calls, each link that was opened is still recorded,
/// or the time has moved on `OPEN_REPEAT_NS` past its open.
proof fn lemma_replay_opens_remembers(events: Seq<(Seq<char>, u64)>, m: int)
    requires
        times_nondecreasing(events),
        0 <= m <= events.len(),
    ensures
        forall|j: int|
            0 <= j < m && #[trigger] opened_at(events, j) ==> replay_opens(events.take(m)).contains(
                events[j],
            ) || events[m - 1].1 - events[j].1 >= OPEN_REPEAT_NS,
    decreases m,
{
    if m > 0 {
        lemma_replay_opens_remembers(events, m - 1);
        let prev = replay_opens(events.take(m - 1));
        let e = events[m - 1];
        assert(events.take(m).drop_last() =~= events.take(m - 1));
        assert(events.take(m).last() == e);
        let cur = replay_opens(events.take(m));
        assert(cur == throttle_step(prev, e.0, e.1));
        assert forall|j: int|
            0 <= j < m && #[trigger] opened_at(events, j) implies cur.contains(events[j])
            || events[m - 1].1 - events[j].1 >= OPEN_REPEAT_NS by {
            assert(events[j].1 <= e.1);
            if j == m - 1 {
                assert(!is_repeat(prev, e.0, e.1));
                assert(cur.last() == e);
            } else {
                assert(events[j].1 <= events[m - 2].1);
                assert(events[m - 2].1 <= e.1);
                if prev.contains(events[j]) {
                    if !is_repeat(prev, e.0, e.1) && e.1 - events[j].1 < OPEN_REPEAT_NS {
                        lemma_recent_opens_keeps(prev, e.1, events[j]);
                        let r = recent_opens(prev, e.1);
                        let q = choose|q: int| 0 <= q < r.len() && r[q] == events[j];
                        assert(r.push(e)[q] == events[j]);
                    }
                }
            }
        }
    }
}

/// At most one open per URL per `OPEN_REPEAT_NS`: from a fresh throttle and
/// whatever other links came in between, two calls for the same URL that
/// both opened it are at least `OPEN_REPEAT_NS` apart.
pub proof fn lemma_same_link_opens_apart(events: Seq<(Seq<char>, u64)>, i: int, k: int)
    requires
        times_nondecreasing(events),
        0 <= i < k < events.len(),
        events[i].0 == events[k].0,
        opened_at(events, i),
        opened_at(events, k),
    ensures
        events[k].1 - events[i].1 >= OPEN_REPEAT_NS,
{
    lemma_replay_opens_remembers(events, k);
    let rec = replay_opens(events.take(k));
    assert(events[i].1 <= events[k - 1].1 && events[k - 1].1 <= events[k].1);
    if rec.contains(events[i]) && events[k].1 - events[i].1 < OPEN_REPEAT_NS {
        let q = choose|q: int| 0 <= q < rec.len() && rec[q] == events[i];
        assert(rec[q].0 == events[k].0 && elapsed(rec[q].1, events[k].1) < OPEN_REPEAT_NS);
        assert(is_repeat(rec, events[k].0, events[k].1));
    }
}

/// A link not opened in the last `OPEN_REPEAT_NS` is always opened, however
/// soon it follows other links.
pub proof fn lemma_other_link_always_opens(record: Seq<(Seq<char>, u64)>, url: Seq<char>, now: u64)
    requires
        forall|i: int| 0 <= i < record.len() ==> (#[trigger] record[i]).0 != url,
    ensures
        !is_repeat(record, url, now),
{
}

/// Times of the web-process crashes within the window, oldest first.
pub struct CrashGuard {
    crashes: Vec<u64>,
}

/// The crash times of `s` that lie within `CRASH_WINDOW_NS` before `now`.
pub open spec fn recent(s: Seq<u64>, now: u64) -> Seq<u64>
    decreases s.len(),
{
    if s.len() == 0 {
        s
    } else if elapsed(s.last(), now) < CRASH_WINDOW_NS {
        recent(s.drop_last(), now).push(s.last())
    } else {
        recent(s.drop_last(), now)
    }
}

/// The crash record after a crash at `now`: the recent ones, then `now`.
pub open spec fn after_crash(s: Seq<u64>, now: u64) -> Seq<u64> {
    recent(s, now).push(now)
}

/// A crash at `now` is answered with a reload while the window holds at most
/// `MAX_RELOADS` crashes, this one included.
pub open spec fn reload_allowed(s: Seq<u64>, now: u64) -> bool {
    after_crash(s, now).len() <= MAX_RELOADS
}

/// The record after a run of crashes, starting from none.
pub open spec fn replay(events: Seq<u64>) -> Seq<u64>
    decreases events.len(),
{
    if events.len() == 0 {
        events
    } else {
        after_crash(replay(events.drop_last()), events.last())
    }
}

impl View for CrashGuard {
    type V = Seq<u64>;

    closed spec fn view(&self) -> Seq<u64> {
        self.crashes@
    }
}

impl CrashGuard {
    pub fn new() -> (g: Self)
        ensures
            g@ == Seq::<u64>::empty(),
    {
        CrashGuard { crashes: Vec::new() }
    }

    /// Records a web-process crash at `now`; true when the view should be
    /// reloaded, false when it keeps crashing and the user is told instead.
    pub fn on_crash(&mut self, now: u64) -> (reload: bool)
        ensures
            final(self)@ == after_crash(old(self)@, now),
            reload == reload_allowed(old(self)@, now),
    {
        let mut kept: Vec<u64> = Vec::new();
        let mut i: usize = 0;
        while i < self.crashes.len()
            invariant
                i <= self.crashes.len(),
                kept@ == recent(self.crashes@.take(i as int), now),
            decreases self.crashes.len() - i,
        {
            let t = self.crashes[i];
            assert(self.crashes@.take(i + 1).drop_last() =~= self.crashes@.take(i as int));
            if elapsed_exec(t, now) < CRASH_WINDOW_NS {
                kept.push(t);
            }
            i = i + 1;
        }
        assert(self.crashes@.take(self.crashes.len() as int) =~= self.crashes@);
        kept.push(now);
        self.crashes = kept;
        self.crashes.len() <= MAX_RELOADS
    }
}

/// `events` never go back in time.
pub open spec fn nondecreasing(events: Seq<u64>) -> bool {
    forall|i: int, j: int| 0 <= i <= j < events.len() ==> events[i] <= events[j]
}

/// Whether crash `k` of a run, from a fresh guard, was answered with a
/// reload.
pub open spec fn reloaded_at(events: Seq<u64>, k: int) -> bool {
    reload_allowed(replay(events.take(k)), events[k])
}

/// The number of crashes `j <= k` less than `CRASH_WINDOW_NS` before crash
/// `k` (crash `k` itself included).
pub open spec fn crashes_in_window(events: Seq<u64>, k: int) -> nat {
    recent(events.take(k + 1), events[k]).len()
}

/// Filtering first against an earlier time and then against a later one is
/// filtering against the later one, for crash times not after the earlier.
proof fn lemma_recent_twice(s: Seq<u64>, t1: u64, t2: u64)
    requires
        t1 <= t2,
        forall|i: int| 0 <= i < s.len() ==> #[trigger] s[i] <= t1,
    ensures
        recent(recent(s, t1), t2) == recent(s, t2),
    decreases s.len(),
{
    if s.len() > 0 {
        assert forall|i: int| 0 <= i < s.drop_last().len() implies #[trigger] s.drop_last()[i]
            <= t1 by {
            assert(s.drop_last()[i] == s[i]);
        }
        lemma_recent_twice(s.drop_last(), t1, t2);
        let x = s.last();
        assert(x <= t1);
        let r = recent(s.drop_last(), t1);
        if elapsed(x, t1) < CRASH_WINDOW_NS {
            assert(r.push(x).drop_last() =~= r);
            assert(r.push(x).last() == x);
        }
    }
}

/// From a fresh guard and with times that never go back, the record after
/// crash `k` holds exactly the crashes within the window before it.
proof fn lemma_replay_is_window(events: Seq<u64>, k: int)
    requires
        nondecreasing(events),
        0 <= k < events.len(),
    ensures
        replay(events.take(k + 1)) == recent(events.take(k + 1), events[k]),
    decreases k,
{
    let e = events[k];
    assert(events.take(k + 1).drop_last() =~= events.take(k));
    assert(events.take(k + 1).last() == e);
    assert(replay(events.take(k + 1)) == recent(replay(events.take(k)), e).push(e));
    assert(recent(events.take(k + 1), e) == recent(events.take(k), e).push(e));
    if k == 0 {
        assert(events.take(0) =~= Seq::<u64>::empty());
        assert(replay(events.take(0)) =~= Seq::<u64>::empty());
    } else {
        lemma_replay_is_window(events, k - 1);
        assert(events.take(k - 1 + 1) =~= events.take(k));
        assert forall|i: int| 0 <= i < events.take(k).len() implies #[trigger] events.take(k)[i]
            <= events[k - 1] by {
            assert(events.take(k)[i] == events[i]);
        }
        assert(events[k - 1] <= e);
        lemma_recent_twice(events.take(k), events[k - 1], e);
    }
}

proof fn lemma_recent_len_from(s: Seq<u64>, a: int, now: u64)
    requires
        0 <= a,
        forall|j: int| a <= j < s.len() ==> elapsed(#[trigger] s[j], now) < CRASH_WINDOW_NS,
    ensures
        recent(s, now).len() >= s.len() - a,
    decreases s.len(),
{
    if s.len() > a {
        assert forall|j: int| a <= j < s.drop_last().len() implies elapsed(
            #[trigger] s.drop_last()[j],
            now,
        ) < CRASH_WINDOW_NS by {
            assert(s.drop_last()[j] == s[j]);
        }
        lemma_recent_len_from(s.drop_last(), a, now);
    }
}

/// The crash-loop limit over any history: with crash times that never go
/// back, crash `k` is answered with a reload exactly when at most
/// `MAX_RELOADS` crashes `j <= k` lie less than `CRASH_WINDOW_NS` before it.
pub proof fn lemma_reload_iff_few_recent_crashes(events: Seq<u64>, k: int)
    requires
        nondecreasing(events),
        0 <= k < events.len(),
    ensures
        reloaded_at(events, k) <==> crashes_in_window(events, k) <= MAX_RELOADS,
{
    lemma_replay_is_window(events, k);
    let e = events[k];
    assert(events.take(k + 1).drop_last() =~= events.take(k));
    assert(events.take(k + 1).last() == e);
    if k > 0 {
        lemma_replay_is_window(events, k - 1);
        assert(events.take(k - 1 + 1) =~= events.take(k));
        assert forall|i: int| 0 <= i < events.take(k).len() implies #[trigger] events.take(k)[i]
            <= events[k - 1] by {
            assert(events.take(k)[i] == events[i]);
        }
        lemma_recent_twice(events.take(k), events[k - 1], e);
    } else {
        assert(events.take(0) =~= Seq::<u64>::empty());
    }
}

/// No window of `CRASH_WINDOW_NS` holds more than `MAX_RELOADS` reloads:
/// with crash times that never go back, crash `k` is not reloaded when
/// crash `i`, `MAX_RELOADS` or more crashes earlier, lies within the window
/// before it. Four reloads `j1 < j2 < j3 < j4` within one window would be
/// such a pair `j1, j4`.
pub proof fn lemma_at_most_three_reloads_per_window(events: Seq<u64>, i: int, k: int)
    requires
        nondecreasing(events),
        0 <= i,
        i + MAX_RELOADS <= k < events.len(),
        events[k] - events[i] < CRASH_WINDOW_NS,
    ensures
        !reloaded_at(events, k),
{
    lemma_reload_iff_few_recent_crashes(events, k);
    let s = events.take(k + 1);
    assert forall|j: int| i <= j < s.len() implies elapsed(#[trigger] s[j], events[k])
        < CRASH_WINDOW_NS by {
        assert(s[j] == events[j]);
        assert(events[i] <= events[j] && events[j] <= events[k]);
    }
    lemma_recent_len_from(s, i, events[k]);
}

/// Text of the notification when a download ends. `saved` is the path the
/// file landed at, when that file exists.
pub open spec fn download_finished_text(saved: Option<Seq<char>>, success: bool) -> Seq<char> {
    match saved {
        Some(p) => "Saved "@ + p,
        None => if success {
            "Download finished"@
        } else {
            "Download failed"@
        },
    }
}

/// The body of the download notification. The file system is trusted over
/// the engine's `success` flag, which stays false after one failed download.
pub fn download_finished_body(saved: Option<&str>, success: bool) -> (out: String)
    ensures
        out@ == download_finished_text(
            match saved {
                Some(p) => Some(p@),
                None => None,
            },
            success,
        ),
{
    match saved {
        Some(p) => String::from_str("Saved ").concat(p),
        None => if success {
            String::from_str("Download finished")
        } else {
            String::from_str("Download failed")
        },
    }
}

/// The text names the saved file whenever it is known, whatever the
/// engine's success flag says; only without a known file does the flag
/// choose between "finished" and "failed".
pub proof fn lemma_saved_file_is_named(p: Seq<char>, success: bool)
    ensures
        download_finished_text(Some(p), success) == "Saved "@ + p,
        download_finished_text(Some(p), true) == download_finished_text(Some(p), false),
        download_finished_text(None, true) == "Download finished"@,
        download_finished_text(None, false) == "Download failed"@,
{
}

/// The destination of the download in progress. The engine's `success`
/// flag is unreliable, so the destination asked for is remembered and
/// reported when the engine names no path. One slot is enough: downloads
/// are started by the user, one after another.
pub struct DownloadSlot<T> {
    requested: Option<T>,
}

impl<T> View for DownloadSlot<T> {
    type V = Option<T>;

    closed spec fn view(&self) -> Option<T> {
        self.requested
    }
}

impl<T> DownloadSlot<T> {
    pub fn new() -> (d: Self)
        ensures
            d@ is None,
    {
        DownloadSlot { requested: None }
    }

    /// Remembers where a new download was asked to land.
    pub fn requested(&mut self, destination: T)
        ensures
            final(self)@ == Some(destination),
    {
        self.requested = Some(destination);
    }

    /// The file a finished download reports: the path the engine names, else
    /// the remembered destination, which is then forgotten (it stays when
    /// the engine names a path).
    pub fn finished(&mut self, reported: Option<T>) -> (f: Option<T>)
        ensures
            reported is Some ==> f == reported && final(self)@ == old(self)@,
            reported is None ==> f == old(self)@ && final(self)@ is None,
    {
        match reported {
            Some(p) => Some(p),
            None => self.requested.take(),
        }
    }
}

} // verus!
