use vstd::prelude::*;
use crate::name_map::names_of;

verus! {

/// How long a file must have been left alone before its change is
/// reported, in milliseconds.
pub const DEBOUNCE_MILLIS: u64 = 1000;

/// A file that was written to, and when it was last written to.
#[derive(Debug)]
pub struct PendingWrite {
    pub path: String,
    pub last_write: u64,
}

/// What a [`PendingWrite`] says.
pub struct PendingView {
    pub path: Seq<char>,
    pub last_write: u64,
}

impl View for PendingWrite {
    type V = PendingView;

    open spec fn view(&self) -> PendingView {
        PendingView { path: self.path@, last_write: self.last_write }
    }
}

/// The two states of the watcher.
#[derive(Clone, Copy, Debug, PartialEq, Eq, Structural)]
pub enum WatcherState {
    /// No write waits to be reported.
    Idle,
    /// A file was written to and its change is not reported yet.
    PendingChange,
}

/// Collects the writes to the watched files and reports each file once it
/// has been left alone for the length of the window, so that a burst of
/// writes to a file is reported as one change.
#[derive(Debug)]
pub struct ShaderWatcher {
    pub window: u64,
    pub pending: Vec<PendingWrite>,
}

/// The files with a write that is still to be reported, in the order in
/// which each was first written to.
pub open spec fn pending_of(pending: Seq<PendingWrite>) -> Seq<PendingView> {
    Seq::new(pending.len(), |i: int| pending[i]@)
}

/// The place of `path` among the pending files, from place `from` on.
pub open spec fn place_of(pending: Seq<PendingView>, path: Seq<char>, from: int) -> Option<int>
    decreases pending.len() - from,
{
    if from < 0 || from >= pending.len() {
        None
    } else if pending[from].path == path {
        Some(from)
    } else {
        place_of(pending, path, from + 1)
    }
}

/// The pending files after a write to `path` at time `now`: the wait of a
/// file that is pending already starts anew, another file joins at the end.
pub open spec fn written(pending: Seq<PendingView>, path: Seq<char>, now: u64) -> Seq<PendingView> {
    match place_of(pending, path, 0) {
        Some(i) => pending.update(i, PendingView { path, last_write: now }),
        None => pending.push(PendingView { path, last_write: now }),
    }
}

/// At time `now` the file has been left alone for the length of the window.
pub open spec fn is_due(write: PendingView, window: u64, now: u64) -> bool {
    now >= write.last_write && now - write.last_write >= window
}

/// The first pending file, from place `from` on, that is due at time `now`.
pub open spec fn first_due(pending: Seq<PendingView>, window: u64, now: u64, from: int) -> Option<
    int,
>
    decreases pending.len() - from,
{
    if from < 0 || from >= pending.len() {
        None
    } else if is_due(pending[from], window, now) {
        Some(from)
    } else {
        first_due(pending, window, now, from + 1)
    }
}

/// The pending files after a poll at time `now`, and the path that the poll
/// reports: that of the first file that is due, which is then no longer
/// pending.
pub open spec fn polled(pending: Seq<PendingView>, window: u64, now: u64) -> (
    Seq<PendingView>,
    Option<Seq<char>>,
) {
    match first_due(pending, window, now, 0) {
        Some(i) => (pending.remove(i), Some(pending[i].path)),
        None => (pending, None),
    }
}

/// The pending files after a write to each of `paths`, in turn, at time
/// `now`.
pub open spec fn written_all(pending: Seq<PendingView>, paths: Seq<Seq<char>>, now: u64) -> Seq<
    PendingView,
>
    decreases paths.len(),
{
    if paths.len() == 0 {
        pending
    } else {
        written(written_all(pending, paths.drop_last(), now), paths.last(), now)
    }
}

/// The pending files after a tick at time `now` at which `paths` were seen to
/// be written, and the path that the tick reports. The poll comes first: a
/// write that is seen at a tick never hides a change that is due at it.
pub open spec fn ticked(pending: Seq<PendingView>, window: u64, now: u64, paths: Seq<Seq<char>>) -> (
    Seq<PendingView>,
    Option<Seq<char>>,
) {
    (written_all(polled(pending, window, now).0, paths, now), polled(pending, window, now).1)
}

impl ShaderWatcher {
    /// The pending files.
    pub open spec fn pending_view(&self) -> Seq<PendingView> {
        pending_of(self.pending@)
    }

    /// A watcher with nothing pending.
    pub fn new(window: u64) -> (r: Self)
        ensures
            r.window == window,
            r.pending_view() == Seq::<PendingView>::empty(),
    {
        let r = ShaderWatcher { window, pending: Vec::new() };
        r
    }

    /// The state of the watcher.
    pub fn state(&self) -> (r: WatcherState)
        ensures
            r == if self.pending_view().len() == 0 {
                WatcherState::Idle
            } else {
                WatcherState::PendingChange
            },
    {
        if self.pending.len() == 0 {
            WatcherState::Idle
        } else {
            WatcherState::PendingChange
        }
    }

    /// Takes note of a write to `path` at time `now`.
    pub fn record_write(&mut self, path: String, now: u64)
        ensures
            final(self).window == old(self).window,
            final(self).pending_view() == written(old(self).pending_view(), path@, now),
    {
        let ghost before = self.pending_view();
        let mut i: usize = 0;
        while i < self.pending.len()
            invariant
                i <= self.pending.len(),
                self.pending_view() == before,
                before == old(self).pending_view(),
                self.window == old(self).window,
                place_of(before, path@, 0) == place_of(before, path@, i as int),
            decreases self.pending.len() - i,
        {
            if self.pending[i].path == path {
                self.pending[i].last_write = now;
                return ;
            }
            i = i + 1;
        }
        self.pending.push(PendingWrite { path, last_write: now });
    }

    /// Reports one file whose change is due at time `now`, if there is one.
    /// Never waits: call at every tick.
    pub fn poll(&mut self, now: u64) -> (changed: Option<String>)
        ensures
            final(self).window == old(self).window,
            final(self).pending_view() == polled(old(self).pending_view(), old(self).window, now).0,
            match changed {
                Some(path) => polled(old(self).pending_view(), old(self).window, now).1 == Some(
                    path@,
                ),
                None => polled(old(self).pending_view(), old(self).window, now).1.is_none(),
            },
    {
        let ghost before = self.pending_view();
        let mut i: usize = 0;
        while i < self.pending.len()
            invariant
                i <= self.pending.len(),
                self.pending_view() == before,
                before == old(self).pending_view(),
                self.window == old(self).window,
                first_due(before, self.window, now, 0) == first_due(
                    before,
                    self.window,
                    now,
                    i as int,
                ),
            decreases self.pending.len() - i,
        {
            let last_write = self.pending[i].last_write;
            if now >= last_write && now - last_write >= self.window {
                let write = self.pending.remove(i);
                return Some(write.path);
            }
            i = i + 1;
        }
        None
    }

    /// One tick of the frame loop at time `now`, at which the files at
    /// `written` were seen to be written: reports one file whose change is
    /// due, if there is one, then takes note of the writes. Never waits.
    pub fn tick(&mut self, now: u64, written: &Vec<String>) -> (changed: Option<String>)
        ensures
            final(self).window == old(self).window,
            final(self).pending_view() == ticked(
                old(self).pending_view(),
                old(self).window,
                now,
                names_of(written@),
            ).0,
            match changed {
                Some(path) => ticked(
                    old(self).pending_view(),
                    old(self).window,
                    now,
                    names_of(written@),
                ).1 == Some(path@),
                None => ticked(
                    old(self).pending_view(),
                    old(self).window,
                    now,
                    names_of(written@),
                ).1.is_none(),
            },
    {
        let changed = self.poll(now);
        let ghost polled_pending = self.pending_view();
        let ghost paths = names_of(written@);
        let mut i: usize = 0;
        while i < written.len()
            invariant
                i <= written.len(),
                paths == names_of(written@),
                self.window == old(self).window,
                self.pending_view() == written_all(polled_pending, paths.take(i as int), now),
            decreases written.len() - i,
        {
            assert(paths.take(i + 1).drop_last() =~= paths.take(i as int));
            self.record_write(written[i].clone(), now);
            i = i + 1;
        }
        assert(paths.take(i as int) =~= paths);
        changed
    }
}

/// One tick of the frame loop as far as one file is concerned: the time of
/// the tick, and whether the file was seen to be written at it.
pub struct Tick {
    pub now: u64,
    pub written: bool,
}

/// What a watcher that starts idle holds after the given ticks, and how many
/// changes it has reported, where all the writes are to the file at `path`.
pub open spec fn replay(window: u64, path: Seq<char>, ticks: Seq<Tick>) -> (Seq<PendingView>, nat)
    decreases ticks.len(),
{
    if ticks.len() == 0 {
        (Seq::empty(), 0)
    } else {
        let (pending, reported) = replay(window, path, ticks.drop_last());
        let tick = ticks.last();
        let paths = if tick.written {
            seq![path]
        } else {
            Seq::empty()
        };
        let (left, changed) = ticked(pending, window, tick.now, paths);
        (
            left,
            if changed.is_some() {
                reported + 1
            } else {
                reported
            },
        )
    }
}

/// The time of the last write among the ticks.
pub open spec fn last_write(ticks: Seq<Tick>) -> Option<u64>
    decreases ticks.len(),
{
    if ticks.len() == 0 {
        None
    } else if ticks.last().written {
        Some(ticks.last().now)
    } else {
        last_write(ticks.drop_last())
    }
}

/// The number of writes among the ticks.
pub open spec fn writes(ticks: Seq<Tick>) -> nat
    decreases ticks.len(),
{
    if ticks.len() == 0 {
        0
    } else if ticks.last().written {
        writes(ticks.drop_last()) + 1
    } else {
        writes(ticks.drop_last())
    }
}

/// The clock never runs back from one tick to the next.
pub open spec fn in_time_order(ticks: Seq<Tick>) -> bool {
    forall|i: int, j: int| 0 <= i <= j < ticks.len() ==> ticks[i].now <= ticks[j].now
}

/// Each write follows the write before it by less than the window.
pub open spec fn within_window(window: u64, ticks: Seq<Tick>) -> bool {
    forall|i: int|
        0 <= i < ticks.len() && (#[trigger] ticks[i]).written && last_write(ticks.take(i)).is_some()
            ==> ticks[i].now - last_write(ticks.take(i)).unwrap() < window
}

/// Each write follows the write before it by the window or more.
pub open spec fn beyond_window(window: u64, ticks: Seq<Tick>) -> bool {
    forall|i: int|
        0 <= i < ticks.len() && (#[trigger] ticks[i]).written && last_write(ticks.take(i)).is_some()
            ==> ticks[i].now - last_write(ticks.take(i)).unwrap() >= window
}

/// The ticks go on until the last write has been left alone for the length
/// of the window.
pub open spec fn settled(window: u64, ticks: Seq<Tick>) -> bool {
    &&& last_write(ticks).is_some()
    &&& !ticks.last().written
    &&& ticks.last().now - last_write(ticks).unwrap() >= window
}

/// The last write happened at one of the ticks.
proof fn lemma_last_write_is_a_tick(ticks: Seq<Tick>)
    requires
        last_write(ticks).is_some(),
    ensures
        exists|i: int| 0 <= i < ticks.len() && ticks[i].now == last_write(ticks).unwrap(),
    decreases ticks.len(),
{
    if !ticks.last().written {
        let earlier = ticks.drop_last();
        lemma_last_write_is_a_tick(earlier);
        let i = choose|i: int| 0 <= i < earlier.len() && earlier[i].now == last_write(earlier).unwrap();
        assert(ticks[i] == earlier[i]);
    }
}

/// What holds of the ticks holds of the ticks without the last.
proof fn lemma_earlier_ticks(window: u64, ticks: Seq<Tick>)
    requires
        ticks.len() > 0,
    ensures
        in_time_order(ticks) ==> in_time_order(ticks.drop_last()),
        within_window(window, ticks) ==> within_window(window, ticks.drop_last()),
        beyond_window(window, ticks) ==> beyond_window(window, ticks.drop_last()),
        in_time_order(ticks) && last_write(ticks.drop_last()).is_some() ==> last_write(
            ticks.drop_last(),
        ).unwrap() <= ticks.last().now,
{
    let earlier = ticks.drop_last();
    assert forall|i: int| 0 <= i < earlier.len() implies earlier[i] == ticks[i] && earlier.take(i)
        == ticks.take(i) by {
        assert(earlier.take(i) =~= ticks.take(i));
    }
    if in_time_order(ticks) && last_write(earlier).is_some() {
        lemma_last_write_is_a_tick(earlier);
        let i = choose|i: int| 0 <= i < earlier.len() && earlier[i].now == last_write(earlier).unwrap();
        assert(ticks[i] == earlier[i]);
    }
}

/// What one tick does to a watcher that holds at most the one file.
proof fn lemma_tick_on_one_file(window: u64, path: Seq<char>, since: u64, tick: Tick)
    ensures
        ({
            let waiting = seq![PendingView { path, last_write: since }];
            let fresh = seq![PendingView { path, last_write: tick.now }];
            let nothing = Seq::<PendingView>::empty();
            let none = Seq::<Seq<char>>::empty();
            &&& ticked(nothing, window, tick.now, none) == (nothing, None::<Seq<char>>)
            &&& ticked(nothing, window, tick.now, seq![path]) == (fresh, None::<Seq<char>>)
            &&& is_due(waiting[0], window, tick.now) ==> {
                &&& ticked(waiting, window, tick.now, none) == (nothing, Some(path))
                &&& ticked(waiting, window, tick.now, seq![path]) == (fresh, Some(path))
            }
            &&& !is_due(waiting[0], window, tick.now) ==> {
                &&& ticked(waiting, window, tick.now, none) == (waiting, None::<Seq<char>>)
                &&& ticked(waiting, window, tick.now, seq![path]) == (fresh, None::<Seq<char>>)
            }
        }),
{
    let waiting = seq![PendingView { path, last_write: since }];
    let fresh = seq![PendingView { path, last_write: tick.now }];
    let nothing = Seq::<PendingView>::empty();
    let one = seq![path];
    assert(first_due(waiting, window, tick.now, 1).is_none());
    assert(written_all(nothing, one, tick.now) == written(
        written_all(nothing, one.drop_last(), tick.now),
        path,
        tick.now,
    ));
    assert(written_all(waiting, one, tick.now) == written(
        written_all(waiting, one.drop_last(), tick.now),
        path,
        tick.now,
    ));
}

/// How a burst stands after any number of its ticks: until the file has been
/// left alone for the length of the window nothing is reported and the file
/// waits; from then on the one change is reported and nothing waits.
proof fn lemma_burst_so_far(window: u64, path: Seq<char>, ticks: Seq<Tick>)
    requires
        in_time_order(ticks),
        within_window(window, ticks),
    ensures
        replay(window, path, ticks) == match last_write(ticks) {
            None => (Seq::<PendingView>::empty(), 0nat),
            Some(since) => if settled(window, ticks) {
                (Seq::<PendingView>::empty(), 1nat)
            } else {
                (seq![PendingView { path, last_write: since }], 0nat)
            },
        },
    decreases ticks.len(),
{
    if ticks.len() > 0 {
        let earlier = ticks.drop_last();
        let tick = ticks.last();
        lemma_earlier_ticks(window, ticks);
        lemma_burst_so_far(window, path, earlier);
        match last_write(earlier) {
            None => {
                lemma_tick_on_one_file(window, path, 0, tick);
            },
            Some(since) => {
                lemma_tick_on_one_file(window, path, since, tick);
            },
        }
    }
}

/// How spaced writes stand after any number of their ticks: every write but
/// the last has been reported, and the last has been once the file has been
/// left alone for the length of the window.
proof fn lemma_spaced_so_far(window: u64, path: Seq<char>, ticks: Seq<Tick>)
    requires
        in_time_order(ticks),
        beyond_window(window, ticks),
    ensures
        replay(window, path, ticks) == match last_write(ticks) {
            None => (Seq::<PendingView>::empty(), 0nat),
            Some(since) => if settled(window, ticks) {
                (Seq::<PendingView>::empty(), writes(ticks))
            } else {
                (seq![PendingView { path, last_write: since }], (writes(ticks) - 1) as nat)
            },
        },
        last_write(ticks).is_some() ==> writes(ticks) > 0,
        last_write(ticks).is_none() ==> writes(ticks) == 0,
    decreases ticks.len(),
{
    if ticks.len() > 0 {
        let earlier = ticks.drop_last();
        let tick = ticks.last();
        lemma_earlier_ticks(window, ticks);
        lemma_spaced_so_far(window, path, earlier);
        match last_write(earlier) {
            None => {
                lemma_tick_on_one_file(window, path, 0, tick);
            },
            Some(since) => {
                lemma_tick_on_one_file(window, path, since, tick);
            },
        }
    }
}

/// Writes to one file that follow each other within the window are reported
/// as one change, however the ticks fall between them: once the file has
/// been left alone for the length of the window, exactly one change has been
/// reported and nothing waits.
pub proof fn lemma_burst_reported_once(window: u64, path: Seq<char>, ticks: Seq<Tick>)
    requires
        in_time_order(ticks),
        within_window(window, ticks),
        settled(window, ticks),
    ensures
        replay(window, path, ticks) == (Seq::<PendingView>::empty(), 1nat),
{
    lemma_burst_so_far(window, path, ticks);
}

/// Writes to one file that follow each other by the window or more are
/// reported one by one, however the ticks fall between them: once the file
/// has been left alone for the length of the window, as many changes have
/// been reported as there were writes, and nothing waits.
pub proof fn lemma_spaced_reported_each(window: u64, path: Seq<char>, ticks: Seq<Tick>)
    requires
        in_time_order(ticks),
        beyond_window(window, ticks),
        settled(window, ticks),
    ensures
        replay(window, path, ticks) == (Seq::<PendingView>::empty(), writes(ticks)),
{
    lemma_spaced_so_far(window, path, ticks);
}

} // verus!
