//! The trailing window of recent throughput, and its peak.
//!
//! Each interface keeps the throughput of its last minute, oldest first. A new
//! observation pushes out, from the front, what is a minute old or older.

use std::collections::VecDeque;
use vstd::prelude::*;
use crate::rate::{mbps_ceil_spec, NetSample, NetSpeed, NetSpeeds, RateError, speeds_holds};

verus! {

/// The length of the window: sixty seconds, in nanoseconds.
pub const WINDOW_NANOS: u64 = 60_000_000_000;

/// The largest peak that is reported.
pub const PEAK_MAX: u16 = 0xffff;

/// The throughput of one interface, observed at `time`.
#[derive(Clone, Copy, Debug, PartialEq, Eq)]
pub struct HistoryEntry {
    /// Nanoseconds on a monotonic clock.
    pub time: u64,
    pub speeds: NetSpeeds,
}

/// The time that has passed at `now` since `then`; none where the clock
/// shows `then` as the later one.
pub open spec fn age(now: u64, then: u64) -> int {
    if now >= then {
        now - then
    } else {
        0
    }
}

/// Whether an entry has left the window at `now`.
pub open spec fn is_stale(now: u64, entry: HistoryEntry) -> bool {
    age(now, entry.time) >= WINDOW_NANOS
}

/// How many entries at the front of `entries` are stale at `now`, up to the
/// first that is not.
pub open spec fn stale_prefix(entries: Seq<HistoryEntry>, now: u64) -> nat
    decreases entries.len(),
{
    if entries.len() > 0 && is_stale(now, entries[0]) {
        1 + stale_prefix(entries.skip(1), now)
    } else {
        0
    }
}

/// What is left of `entries` at `now`: all but the stale entries at the front.
pub open spec fn evict(entries: Seq<HistoryEntry>, now: u64) -> Seq<HistoryEntry> {
    entries.skip(stale_prefix(entries, now) as int)
}

/// Oldest first: no entry is newer than one behind it.
pub open spec fn sorted(entries: Seq<HistoryEntry>) -> bool {
    forall|i: int, j: int| 0 <= i <= j < entries.len() ==> entries[i].time <= entries[j].time
}

/// No entry is newer than `now`.
pub open spec fn none_after(entries: Seq<HistoryEntry>, now: u64) -> bool {
    forall|i: int| 0 <= i < entries.len() ==> (#[trigger] entries[i]).time <= now
}

/// Every entry is less than a window older than `now`, and none is newer.
pub open spec fn recent(entries: Seq<HistoryEntry>, now: u64) -> bool {
    forall|i: int|
        0 <= i < entries.len() ==> entries[i].time <= now && now - (#[trigger] entries[i]).time
            < WINDOW_NANOS
}

/// A throughput in whole megabits per second, rounded up and held to what a
/// peak can show.
pub open spec fn peak_of(speed: NetSpeed) -> u16 {
    let whole = mbps_ceil_spec(speed@.0, speed@.1);
    if whole > PEAK_MAX {
        PEAK_MAX
    } else {
        whole as u16
    }
}

/// The highest throughput of a window, each direction by itself.
#[derive(Clone, Copy, Debug, PartialEq, Eq)]
pub struct Peak {
    /// Whole megabits per second sent.
    pub tx: u16,
    /// Whole megabits per second received.
    pub rx: u16,
}

/// Whether `peak` holds the largest `tx` and the largest `rx` among
/// `entries`: no entry is above it, and each of the two is reached by some
/// entry, which need not be the same for both.
pub open spec fn is_peak(entries: Seq<HistoryEntry>, peak: Peak) -> bool {
    &&& forall|i: int|
        0 <= i < entries.len() ==> peak_of((#[trigger] entries[i]).speeds.tx) <= peak.tx
            && peak_of(entries[i].speeds.rx) <= peak.rx
    &&& exists|i: int| 0 <= i < entries.len() && peak_of((#[trigger] entries[i]).speeds.tx) == peak.tx
    &&& exists|i: int| 0 <= i < entries.len() && peak_of((#[trigger] entries[i]).speeds.rx) == peak.rx
}

/// What a window is after an observation at `time`: the old entries that are
/// not evicted, then the new one.
pub open spec fn pushed(
    entries: Seq<HistoryEntry>,
    time: u64,
    speeds: NetSpeeds,
) -> Seq<HistoryEntry> {
    evict(entries, time).push(HistoryEntry { time, speeds })
}

/// Eviction removes stale entries only, and keeps the order of the rest.
pub proof fn lemma_evict_is_suffix(entries: Seq<HistoryEntry>, now: u64)
    ensures
        stale_prefix(entries, now) <= entries.len(),
        forall|i: int| 0 <= i < stale_prefix(entries, now) ==> is_stale(now, #[trigger] entries[i]),
        stale_prefix(entries, now) < entries.len() ==> !is_stale(
            now,
            entries[stale_prefix(entries, now) as int],
        ),
        sorted(entries) ==> sorted(evict(entries, now)),
    decreases entries.len(),
{
    if entries.len() > 0 && is_stale(now, entries[0]) {
        let rest = entries.skip(1);
        lemma_evict_is_suffix(rest, now);
        let k = stale_prefix(rest, now) as int;
        assert forall|i: int| 0 <= i < k + 1 implies is_stale(now, #[trigger] entries[i]) by {
            if i > 0 {
                assert(entries[i] == rest[i - 1]);
            }
        }
        if k + 1 < entries.len() {
            assert(entries[k + 1] == rest[k]);
        }
    }
}

/// In a window that is sorted and not ahead of the clock, eviction keeps
/// exactly the entries that are less than a window old.
pub proof fn lemma_evict_keeps_recent(entries: Seq<HistoryEntry>, now: u64)
    requires
        sorted(entries),
        none_after(entries, now),
    ensures
        recent(evict(entries, now), now),
        evict(entries, now) == entries.filter(|e: HistoryEntry| !is_stale(now, e)),
{
    lemma_evict_is_suffix(entries, now);
    let k = stale_prefix(entries, now) as int;
    let kept = evict(entries, now);
    assert forall|i: int| 0 <= i < kept.len() implies kept[i].time <= now && now - (
    #[trigger] kept[i]).time < WINDOW_NANOS by {
        assert(kept[i] == entries[k + i]);
        assert(entries[k].time <= entries[k + i].time);
    }
    lemma_filter_of_sorted(entries, now);
}

/// Filtering a sorted window for the entries that are not stale gives what
/// eviction leaves.
proof fn lemma_filter_of_sorted(entries: Seq<HistoryEntry>, now: u64)
    requires
        sorted(entries),
        none_after(entries, now),
    ensures
        evict(entries, now) == entries.filter(|e: HistoryEntry| !is_stale(now, e)),
    decreases entries.len(),
{
    let keep = |e: HistoryEntry| !is_stale(now, e);
    reveal(Seq::filter);
    if entries.len() == 0 {
        assert(evict(entries, now) =~= entries.filter(keep));
    } else {
        let front = entries.drop_last();
        let last = entries.last();
        assert(sorted(front)) by {
            assert forall|i: int, j: int| 0 <= i <= j < front.len() implies front[i].time
                <= front[j].time by {
                assert(front[i] == entries[i]);
                assert(front[j] == entries[j]);
            }
        }
        assert(none_after(front, now)) by {
            assert forall|i: int| 0 <= i < front.len() implies (#[trigger] front[i]).time
                <= now by {
                assert(front[i] == entries[i]);
            }
        }
        lemma_filter_of_sorted(front, now);
        lemma_evict_is_suffix(entries, now);
        lemma_evict_is_suffix(front, now);
        let k = stale_prefix(entries, now) as int;
        let kf = stale_prefix(front, now) as int;
        if is_stale(now, last) {
            // Every entry is at least as old as the last one: all are evicted.
            assert forall|i: int| 0 <= i < entries.len() implies is_stale(now, entries[i]) by {
                assert(entries[i].time <= last.time);
            }
            assert(k == entries.len()) by {
                if k < entries.len() {
                    assert(!is_stale(now, entries[k]));
                }
            }
            assert(kf == front.len()) by {
                if kf < front.len() {
                    assert(front[kf] == entries[kf]);
                }
            }
            assert(evict(entries, now) =~= evict(front, now));
        } else {
            // The last entry stays, so eviction ends in front of it.
            assert(kf == k) by {
                if kf < k {
                    assert(front[kf] == entries[kf]);
                } else if k < kf {
                    assert(front[k] == entries[k]);
                }
            }
            assert(evict(entries, now) =~= evict(front, now).push(last));
        }
    }
}

/// After an observation at `time`, a window that was sorted and not ahead of
/// the clock holds only what is less than a window older than `time`, and is
/// sorted still.
pub proof fn lemma_push_keeps_window(entries: Seq<HistoryEntry>, time: u64, speeds: NetSpeeds)
    requires
        sorted(entries),
        none_after(entries, time),
    ensures
        sorted(pushed(entries, time, speeds)),
        recent(pushed(entries, time, speeds), time),
        pushed(entries, time, speeds).len() >= 1,
        pushed(entries, time, speeds).last() == (HistoryEntry { time, speeds }),
{
    lemma_evict_is_suffix(entries, time);
    lemma_evict_keeps_recent(entries, time);
    let kept = evict(entries, time);
    let all = pushed(entries, time, speeds);
    assert forall|i: int| 0 <= i < all.len() implies all[i].time <= time && time - (
    #[trigger] all[i]).time < WINDOW_NANOS by {
        if i < kept.len() {
            assert(all[i] == kept[i]);
        }
    }
    assert forall|i: int, j: int| 0 <= i <= j < all.len() implies all[i].time <= all[j].time by {
        if j < kept.len() {
            assert(all[i] == kept[i]);
            assert(all[j] == kept[j]);
        } else if i < kept.len() {
            assert(all[i] == kept[i]);
        }
    }
}

/// The larger of two peaks, each direction by itself.
pub open spec fn peak_max(p: Peak, q: Peak) -> Peak {
    Peak {
        tx: if p.tx >= q.tx {
            p.tx
        } else {
            q.tx
        },
        rx: if p.rx >= q.rx {
            p.rx
        } else {
            q.rx
        },
    }
}

/// The peak of two windows laid end to end is, in each direction, the
/// larger of their peaks.
pub proof fn lemma_peak_of_concat(a: Seq<HistoryEntry>, p: Peak, b: Seq<HistoryEntry>, q: Peak)
    requires
        is_peak(a, p),
        is_peak(b, q),
    ensures
        is_peak(a + b, peak_max(p, q)),
{
    let both = a + b;
    let m = peak_max(p, q);
    assert forall|i: int| 0 <= i < both.len() implies peak_of((#[trigger] both[i]).speeds.tx)
        <= m.tx && peak_of(both[i].speeds.rx) <= m.rx by {
        if i < a.len() {
            assert(both[i] == a[i]);
        } else {
            assert(both[i] == b[i - a.len()]);
        }
    }
    let ia = choose|i: int| 0 <= i < a.len() && peak_of((#[trigger] a[i]).speeds.tx) == p.tx;
    let ib = choose|i: int| 0 <= i < b.len() && peak_of((#[trigger] b[i]).speeds.tx) == q.tx;
    let ja = choose|i: int| 0 <= i < a.len() && peak_of((#[trigger] a[i]).speeds.rx) == p.rx;
    let jb = choose|i: int| 0 <= i < b.len() && peak_of((#[trigger] b[i]).speeds.rx) == q.rx;
    assert(both[ia] == a[ia]);
    assert(both[a.len() + ib] == b[ib]);
    assert(both[ja] == a[ja]);
    assert(both[a.len() + jb] == b[jb]);
    if p.tx >= q.tx {
        assert(peak_of(both[ia].speeds.tx) == m.tx);
    } else {
        assert(peak_of(both[a.len() + ib].speeds.tx) == m.tx);
    }
    if p.rx >= q.rx {
        assert(peak_of(both[ja].speeds.rx) == m.rx);
    } else {
        assert(peak_of(both[a.len() + jb].speeds.rx) == m.rx);
    }
}

/// A throughput as a peak shows it.
pub fn peak_value(speed: &NetSpeed) -> (r: u16)
    ensures
        r == peak_of(*speed),
{
    let whole = speed.mbps_ceil();
    if whole > PEAK_MAX as u128 {
        PEAK_MAX
    } else {
        whole as u16
    }
}

impl Peak {
    /// The larger of two peaks, each direction by itself.
    pub fn max(self, other: Peak) -> (r: Peak)
        ensures
            r == peak_max(self, other),
    {
        Peak {
            tx: if self.tx >= other.tx {
                self.tx
            } else {
                other.tx
            },
            rx: if self.rx >= other.rx {
                self.rx
            } else {
                other.rx
            },
        }
    }
}

/// The recent throughput of one interface, oldest first.
pub struct HistoryWindow {
    entries: VecDeque<HistoryEntry>,
}

impl View for HistoryWindow {
    type V = Seq<HistoryEntry>;

    /// The entries, oldest first.
    closed spec fn view(&self) -> Seq<HistoryEntry> {
        self.entries@
    }
}

impl HistoryWindow {
    /// A window without entries.
    pub fn new() -> (w: HistoryWindow)
        ensures
            w@ == Seq::<HistoryEntry>::empty(),
    {
        HistoryWindow { entries: VecDeque::new() }
    }

    /// The number of entries.
    pub fn len(&self) -> (n: usize)
        ensures
            n == self@.len(),
    {
        self.entries.len()
    }

    /// The entry at `index`, counted from the oldest; nothing behind the last.
    pub fn get(&self, index: usize) -> (e: Option<HistoryEntry>)
        ensures
            e == (if index < self@.len() {
                Some(self@[index as int])
            } else {
                None
            }),
    {
        if index < self.entries.len() {
            Some(self.entries[index])
        } else {
            None
        }
    }

    /// Takes in the throughput observed at `time`: drops from the front every
    /// entry that is a window older than `time` or more, up to the first that
    /// is not, and appends the new one.
    ///
    /// Where the window was sorted and held nothing newer than `time`, it is
    /// sorted afterwards and holds only what is less than a window older
    /// than `time`.
    pub fn push(&mut self, time: u64, speeds: NetSpeeds)
        ensures
            final(self)@ == pushed(old(self)@, time, speeds),
            sorted(old(self)@) && none_after(old(self)@, time) ==> sorted(final(self)@),
            sorted(old(self)@) && none_after(old(self)@, time) ==> recent(final(self)@, time),
    {
        let ghost before = self@;
        loop
            invariant
                evict(self@, time) == evict(before, time),
            ensures
                self@ == evict(before, time),
            decreases self@.len(),
        {
            if self.entries.len() == 0 {
                break ;
            }
            let front = self.entries[0];
            if time < front.time || time - front.time < WINDOW_NANOS {
                break ;
            }
            proof {
                let now = self@;
                let rest = now.skip(1);
                assert(now.subrange(1, now.len() as int) == rest);
                assert(evict(now, time) =~= evict(rest, time)) by {
                    lemma_evict_is_suffix(rest, time);
                }
            }
            self.entries.pop_front();
        }
        self.entries.push_back(HistoryEntry { time, speeds });
        proof {
            if sorted(before) && none_after(before, time) {
                lemma_push_keeps_window(before, time, speeds);
            }
        }
    }

    /// The peak of the window: nothing where it is empty, else the largest
    /// throughput sent and the largest received.
    pub fn peak(&self) -> (r: Option<Peak>)
        ensures
            r is None <==> self@.len() == 0,
            r matches Some(p) ==> is_peak(self@, p),
    {
        let n = self.entries.len();
        if n == 0 {
            return None;
        }
        let first = self.entries[0];
        let mut best = Peak { tx: peak_value(&first.speeds.tx), rx: peak_value(&first.speeds.rx) };
        let mut i: usize = 1;
        assert(self@.take(1)[0] == self@[0]);
        while i < n
            invariant
                1 <= i <= n,
                n == self@.len(),
                is_peak(self@.take(i as int), best),
            decreases n - i,
        {
            let entry = self.entries[i];
            let here = Peak { tx: peak_value(&entry.speeds.tx), rx: peak_value(&entry.speeds.rx) };
            proof {
                let one = seq![entry];
                assert(one[0] == entry);
                assert(is_peak(one, here));
                lemma_peak_of_concat(self@.take(i as int), best, one, here);
                assert(self@.take(i as int) + one =~= self@.take(i + 1));
            }
            best = best.max(here);
            i = i + 1;
        }
        assert(self@.take(n as int) =~= self@);
        Some(best)
    }
}

/// What is kept of one interface from poll to poll: its name, its last
/// counter reading, and its recent throughput.
pub struct NetStats {
    name: String,
    last: NetSample,
    buckets: HistoryWindow,
}

impl NetStats {
    /// What holds of every `NetStats`: its history is sorted, and every entry
    /// of it is less than a window older than the last reading.
    #[verifier::type_invariant]
    pub open spec fn wf(self) -> bool {
        sorted(self.history()) && recent(self.history(), self.last_sample().time)
    }

    /// The interface's name.
    pub closed spec fn name_view(self) -> Seq<char> {
        self.name@
    }

    /// The last counter reading.
    pub closed spec fn last_sample(self) -> NetSample {
        self.last
    }

    /// The recent throughput, oldest first.
    pub closed spec fn history(self) -> Seq<HistoryEntry> {
        self.buckets@
    }

    /// Starts to follow the interface `name` from its reading `first`.
    pub fn new(name: String, first: NetSample) -> (s: NetStats)
        ensures
            s.name_view() == name@,
            s.last_sample() == first,
            s.history() == Seq::<HistoryEntry>::empty(),
            s.wf(),
    {
        NetStats { name, last: first, buckets: HistoryWindow::new() }
    }

    /// The interface's name.
    pub fn name(&self) -> (n: &String)
        ensures
            n@ == self.name_view(),
    {
        &self.name
    }

    /// The last counter reading.
    pub fn last(&self) -> (s: NetSample)
        ensures
            s == self.last_sample(),
    {
        self.last
    }

    /// The recent throughput.
    pub fn buckets(&self) -> (w: &HistoryWindow)
        ensures
            w@ == self.history(),
            self.wf(),
    {
        proof {
            use_type_invariant(self);
        }
        &self.buckets
    }

    /// Takes in the reading `sample`: gives the throughput since the last
    /// reading, makes `sample` the last reading and enters the throughput in
    /// the history. A reading that is not later than the last one is
    /// refused, and nothing changes.
    pub fn get_speeds(&mut self, sample: NetSample) -> (r: Result<NetSpeeds, RateError>)
        ensures
            sample.time <= old(self).last_sample().time <==> r is Err,
            r matches Err(e) ==> e == RateError::InvalidInterval,
            r is Err ==> final(self).last_sample() == old(self).last_sample(),
            r is Err ==> final(self).history() == old(self).history(),
            r matches Ok(speeds) ==> speeds_holds(sample, old(self).last_sample(), speeds),
            r is Ok ==> final(self).last_sample() == sample,
            r matches Ok(speeds) ==> final(self).history() == pushed(
                old(self).history(),
                sample.time,
                speeds,
            ),
            final(self).name_view() == old(self).name_view(),
            final(self).wf(),
    {
        proof {
            use_type_invariant(&*self);
        }
        let speeds = match sample.speeds(&self.last) {
            Ok(s) => s,
            Err(e) => {
                return Err(e);
            },
        };
        // The window is taken out while it changes, and put back once the
        // last reading is the new one.
        let mut window = HistoryWindow::new();
        std::mem::swap(&mut self.buckets, &mut window);
        proof {
            lemma_push_keeps_window(window@, sample.time, speeds);
        }
        window.push(sample.time, speeds);
        self.last = sample;
        std::mem::swap(&mut self.buckets, &mut window);
        Ok(speeds)
    }
}

/// The histories of `sources`, laid end to end.
pub open spec fn all_entries(sources: Seq<NetStats>) -> Seq<HistoryEntry>
    decreases sources.len(),
{
    if sources.len() == 0 {
        Seq::empty()
    } else {
        all_entries(sources.drop_last()) + sources.last().history()
    }
}

/// The peak over the histories of all of `sources`: nothing where none of
/// them holds an entry, else the largest throughput sent and the largest
/// received, each among all entries of all sources.
pub fn peak_across(sources: &Vec<NetStats>) -> (r: Option<Peak>)
    ensures
        r is None <==> all_entries(sources@).len() == 0,
        r matches Some(p) ==> is_peak(all_entries(sources@), p),
{
    let mut best: Option<Peak> = None;
    let mut i: usize = 0;
    assert(sources@.take(0) =~= Seq::<NetStats>::empty());
    while i < sources.len()
        invariant
            i <= sources.len(),
            best is None <==> all_entries(sources@.take(i as int)).len() == 0,
            best matches Some(p) ==> is_peak(all_entries(sources@.take(i as int)), p),
        decreases sources.len() - i,
    {
        let here = sources[i].buckets().peak();
        proof {
            let before = sources@.take(i as int);
            let after = sources@.take(i + 1);
            assert(after.drop_last() =~= before);
            assert(after.last() == sources@[i as int]);
            let seen = all_entries(before);
            let added = sources@[i as int].history();
            assert(all_entries(after) == seen + added);
            match (best, here) {
                (Some(p), Some(q)) => {
                    lemma_peak_of_concat(seen, p, added, q);
                },
                (Some(p), None) => {
                    assert(seen + added =~= seen);
                },
                (None, Some(q)) => {
                    assert(seen + added =~= added);
                },
                (None, None) => {},
            }
        }
        best = match (best, here) {
            (Some(p), Some(q)) => Some(p.max(q)),
            (Some(p), None) => Some(p),
            (None, found) => found,
        };
        i = i + 1;
    }
    assert(sources@.take(sources.len() as int) =~= sources@);
    best
}

} // verus!
