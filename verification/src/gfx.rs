//! The context of all displays: one engine for each, found by the identity
//! of its overlay window, and the lifecycle calls handed on to every engine.

use vstd::prelude::*;
use crate::host::{base_rects, PlacedWindow};
use crate::layout::records_bytes;
use crate::snow::{frame_plan, taken, BuildError, FramePlan, SnowState, SnowView, WindowEvent, MAX_WINDOWS};
use crate::surface::SurfaceError;

verus! {

/// What one engine takes on a tick.
pub struct Tick {
    /// Seconds since the engine's creation, as a single-precision bit pattern.
    pub time: u32,
    /// Seconds since the tick before, as a single-precision bit pattern.
    pub dt: u32,
    /// The host's windows, with rectangles in units of the engine's display.
    pub windows: Vec<PlacedWindow>,
}

/// Whether some engine of `s` has the overlay window `id`.
pub open spec fn knows(s: Seq<SnowView>, id: u64) -> bool {
    exists|i: int| 0 <= i < s.len() && (#[trigger] s[i]).window == id
}

/// The place in `s` of an engine with the overlay window `id`.
pub open spec fn slot_of(s: Seq<SnowView>, id: u64) -> int {
    choose|i: int| 0 <= i < s.len() && (#[trigger] s[i]).window == id
}

/// Whether no two engines of `s` have one overlay window.
pub open spec fn distinct(s: Seq<SnowView>) -> bool {
    forall|i: int, j: int| 0 <= i < j < s.len() ==> (#[trigger] s[i]).window != (#[trigger] s[j]).window
}

/// The engines `s` with `e` among them: in the place of the engine with the
/// same overlay window, or at the end where there is none.
pub open spec fn put(s: Seq<SnowView>, e: SnowView) -> Seq<SnowView> {
    if knows(s, e.window) {
        s.update(slot_of(s, e.window), e)
    } else {
        s.push(e)
    }
}

/// The first failure among `builds`, if any.
pub open spec fn first_failure(builds: Seq<Result<SnowState, BuildError>>) -> Option<BuildError>
    decreases builds.len(),
{
    if builds.len() == 0 {
        None
    } else {
        match builds.first() {
            Err(e) => Some(e),
            Ok(_) => first_failure(builds.drop_first()),
        }
    }
}

/// The engines `s` with those of `builds` put among them, one after the other.
pub open spec fn gathered(s: Seq<SnowView>, builds: Seq<Result<SnowState, BuildError>>) -> Seq<
    SnowView,
>
    decreases builds.len(),
{
    if builds.len() == 0 {
        s
    } else {
        match builds.first() {
            Err(_) => gathered(s, builds.drop_first()),
            Ok(e) => gathered(put(s, e@), builds.drop_first()),
        }
    }
}

/// The overlay windows of the engines of `s` that run, in the order of `s`.
pub open spec fn redraws(s: Seq<SnowView>) -> Seq<u64>
    decreases s.len(),
{
    if s.len() == 0 {
        Seq::empty()
    } else if s.last().redraw() {
        redraws(s.drop_last()).push(s.last().window)
    } else {
        redraws(s.drop_last())
    }
}

/// The engines `s` after engine `at` took the event.
pub open spec fn dispatched(s: Seq<SnowView>, at: int, event: WindowEvent) -> Seq<SnowView> {
    s.update(at, s[at].event(event))
}

/// How many of `n` engines take part when `given` inputs are at hand.
pub open spec fn reached(n: int, given: int) -> int {
    if given < n {
        given
    } else {
        n
    }
}

/// The place of the first error in `acquired`, or its length where there is
/// none.
pub open spec fn first_error(acquired: Seq<Result<(), SurfaceError>>) -> int
    decreases acquired.len(),
{
    if acquired.len() == 0 {
        0
    } else if first_error(acquired.drop_last()) < acquired.len() - 1 {
        first_error(acquired.drop_last())
    } else if acquired.last() is Err {
        acquired.len() - 1
    } else {
        acquired.len() as int
    }
}

/// Where every build succeeded and no two engines have one overlay window,
/// the context holds one engine for each build, in the builds' order, after
/// those it held before.
pub proof fn law_one_engine_each(s: Seq<SnowView>, builds: Seq<Result<SnowState, BuildError>>)
    requires
        forall|i: int| 0 <= i < builds.len() ==> (#[trigger] builds[i]) is Ok,
        forall|i: int, j: int|
            0 <= i < builds.len() && 0 <= j < s.len() ==> (#[trigger] builds[i])->Ok_0@.window != (
            #[trigger] s[j]).window,
        forall|i: int, j: int|
            0 <= i < j < builds.len() ==> (#[trigger] builds[i])->Ok_0@.window != (
            #[trigger] builds[j])->Ok_0@.window,
    ensures
        first_failure(builds) is None,
        gathered(s, builds) == s + Seq::new(builds.len(), |i: int| builds[i]->Ok_0@),
    decreases builds.len(),
{
    if builds.len() == 0 {
        assert(s + Seq::new(builds.len(), |i: int| builds[i]->Ok_0@) =~= s);
    } else {
        let e = builds.first()->Ok_0@;
        let rest = builds.drop_first();
        assert(builds[0] is Ok);
        assert(!knows(s, e.window)) by {
            if knows(s, e.window) {
                let j = slot_of(s, e.window);
                assert(builds[0]->Ok_0@.window != s[j].window);
            }
        }
        let next = s.push(e);
        assert forall|i: int| 0 <= i < rest.len() implies (#[trigger] rest[i]) is Ok by {
            assert(rest[i] == builds[i + 1]);
        }
        assert forall|i: int, j: int| 0 <= i < rest.len() && 0 <= j < next.len() implies (
        #[trigger] rest[i])->Ok_0@.window != (#[trigger] next[j]).window by {
            assert(rest[i] == builds[i + 1]);
            if j < s.len() {
                assert(builds[i + 1]->Ok_0@.window != s[j].window);
            } else {
                assert(builds[0]->Ok_0@.window != builds[i + 1]->Ok_0@.window);
            }
        }
        assert forall|i: int, j: int| 0 <= i < j < rest.len() implies (#[trigger] rest[i])->Ok_0@.window
            != (#[trigger] rest[j])->Ok_0@.window by {
            assert(rest[i] == builds[i + 1]);
            assert(rest[j] == builds[j + 1]);
        }
        law_one_engine_each(next, rest);
        assert(next + Seq::new(rest.len(), |i: int| rest[i]->Ok_0@) =~= s + Seq::new(
            builds.len(),
            |i: int| builds[i]->Ok_0@,
        ));
    }
}

/// An event neither adds an engine nor removes one, and leaves every engine
/// at its overlay window; the engines other than the one it is for stay as
/// they are.
pub proof fn law_engines_stay(s: Seq<SnowView>, at: int, event: WindowEvent)
    requires
        0 <= at < s.len(),
        distinct(s),
    ensures
        dispatched(s, at, event).len() == s.len(),
        forall|i: int| 0 <= i < s.len() ==> (#[trigger] dispatched(s, at, event)[i]).window == s[i].window,
        forall|i: int| 0 <= i < s.len() && i != at ==> (#[trigger] dispatched(s, at, event)[i]) == s[i],
        distinct(dispatched(s, at, event)),
        redraws(dispatched(s, at, WindowEvent::Other)) == redraws(s),
{
    let d = dispatched(s, at, event);
    assert forall|i: int, j: int| 0 <= i < j < d.len() implies (#[trigger] d[i]).window != (
    #[trigger] d[j]).window by {
        assert(s[i].window != s[j].window);
    }
    assert(dispatched(s, at, WindowEvent::Other) =~= s);
}

/// Redraws are asked for exactly the engines that run: an overlay window is
/// among them if and only if some engine has it and runs.
pub proof fn law_redraws(s: Seq<SnowView>, id: u64)
    ensures
        redraws(s).contains(id) <==> exists|i: int|
            0 <= i < s.len() && (#[trigger] s[i]).window == id && s[i].running,
        redraws(s).len() <= s.len(),
    decreases s.len(),
{
    if s.len() > 0 {
        let head = s.drop_last();
        law_redraws(head, id);
        if redraws(s).contains(id) {
            let k = choose|k: int| 0 <= k < redraws(s).len() && redraws(s)[k] == id;
            if s.last().running && k == redraws(head).len() {
                assert(s[s.len() - 1].window == id && s[s.len() - 1].running);
            } else {
                assert(redraws(head)[k] == id);
                assert(redraws(head).contains(id));
                let i = choose|i: int|
                    0 <= i < head.len() && (#[trigger] head[i]).window == id && head[i].running;
                assert(s[i] == head[i]);
            }
        }
        if exists|i: int| 0 <= i < s.len() && (#[trigger] s[i]).window == id && s[i].running {
            let i = choose|i: int|
                0 <= i < s.len() && (#[trigger] s[i]).window == id && s[i].running;
            if i < head.len() {
                assert(head[i] == s[i]);
                assert(redraws(head).contains(id));
                let k = choose|k: int| 0 <= k < redraws(head).len() && redraws(head)[k] == id;
                assert(redraws(s)[k] == id);
            } else {
                assert(redraws(s)[redraws(head).len() as int] == id);
            }
        }
    }
}

/// The context of all displays.
pub struct State {
    states: Vec<SnowState>,
}

/// The engines as their callers see them.
pub open spec fn views(states: Seq<SnowState>) -> Seq<SnowView> {
    states.map_values(|e: SnowState| e@)
}

/// Whether every engine is as its functions leave it.
pub open spec fn all_wf(states: Seq<SnowState>) -> bool {
    forall|i: int| 0 <= i < states.len() ==> (#[trigger] states[i]).wf()
}

/// Puts `e` among `states`.
fn put_state(states: &mut Vec<SnowState>, e: SnowState)
    requires
        all_wf(old(states)@),
        distinct(views(old(states)@)),
        e.wf(),
    ensures
        all_wf(final(states)@),
        distinct(views(final(states)@)),
        views(final(states)@) == put(views(old(states)@), e@),
{
    let id = e.window_id();
    let ghost before = views(states@);
    let mut i: usize = 0;
    while i < states.len()
        invariant
            i <= states@.len(),
            states@ == old(states)@,
            before == views(states@),
            distinct(before),
            all_wf(states@),
            e.wf(),
            id == e@.window,
            forall|j: int| 0 <= j < i ==> (#[trigger] before[j]).window != id,
        decreases states@.len() - i,
    {
        if states[i].window_id() == id {
            assert(before[i as int].window == id);
            assert(slot_of(before, id) == i) by {
                let c = slot_of(before, id);
                if c < i {
                    assert(before[c].window != before[i as int].window);
                } else if i < c {
                    assert(before[i as int].window != before[c].window);
                }
            }
            states[i] = e;
            assert(views(states@) =~= put(before, e@));
            assert forall|a: int, b: int| 0 <= a < b < states@.len() implies (#[trigger] views(
                states@,
            )[a]).window != (#[trigger] views(states@)[b]).window by {
                assert(before[a].window != before[b].window);
            }
            return ;
        }
        i += 1;
    }
    assert(!knows(before, id));
    states.push(e);
    assert(views(states@) =~= put(before, e@));
    assert forall|a: int, b: int| 0 <= a < b < states@.len() implies (#[trigger] views(
        states@,
    )[a]).window != (#[trigger] views(states@)[b]).window by {
        if b < before.len() {
            assert(before[a].window != before[b].window);
        } else {
            assert(before[a].window != id);
        }
    }
}

impl State {
    /// Whether every engine is as its functions leave it, and no two have one
    /// overlay window.
    pub closed spec fn wf(&self) -> bool {
        &&& all_wf(self.states@)
        &&& distinct(views(self.states@))
    }

    pub closed spec fn view(&self) -> Seq<SnowView> {
        views(self.states@)
    }

    /// The context of the engines in `builds`, one for each display. The
    /// first failure among them is handed on, and no context is made.
    pub fn new(builds: Vec<Result<SnowState, BuildError>>) -> (made: Result<State, BuildError>)
        requires
            forall|i: int|
                0 <= i < builds@.len() ==> (#[trigger] builds@[i] matches Ok(e) ==> e.wf()),
        ensures
            match first_failure(builds@) {
                Some(e) => made == Err::<State, BuildError>(e),
                None => (made matches Ok(state) && state.wf() && state@ == gathered(
                    Seq::empty(),
                    builds@,
                )),
            },
    {
        let mut rest = builds;
        let mut states: Vec<SnowState> = Vec::new();
        assert(views(states@) =~= Seq::empty());
        while rest.len() > 0
            invariant
                forall|i: int|
                    0 <= i < rest@.len() ==> (#[trigger] rest@[i] matches Ok(e) ==> e.wf()),
                first_failure(builds@) == first_failure(rest@),
                first_failure(builds@) is None ==> gathered(Seq::empty(), builds@) == gathered(
                    views(states@),
                    rest@,
                ),
                all_wf(states@),
                distinct(views(states@)),
            decreases rest@.len(),
        {
            let ghost left = rest@;
            let build = rest.remove(0);
            assert(rest@ =~= left.drop_first());
            assert(build == left.first());
            assert forall|i: int| 0 <= i < rest@.len() implies (#[trigger] rest@[i] matches Ok(
                e,
            ) ==> e.wf()) by {
                assert(rest@[i] == left[i + 1]);
            }
            match build {
                Err(e) => {
                    assert(first_failure(left) == Some(e));
                    return Err(e);
                },
                Ok(e) => {
                    assert(left[0] matches Ok(e) ==> e.wf());
                    assert(first_failure(left) == first_failure(left.drop_first()));
                    assert(gathered(views(states@), left) == gathered(
                        put(views(states@), e@),
                        left.drop_first(),
                    ));
                    put_state(&mut states, e);
                },
            }
        }
        Ok(State { states })
    }

    /// The overlay windows of all engines, in the engines' order.
    pub fn windows(&self) -> (ids: Vec<u64>)
        ensures
            ids@.len() == self@.len(),
            forall|i: int| 0 <= i < ids@.len() ==> ids@[i] == (#[trigger] self@[i]).window,
    {
        let mut ids: Vec<u64> = Vec::new();
        let mut i: usize = 0;
        while i < self.states.len()
            invariant
                i <= self.states@.len(),
                ids@.len() == i,
                forall|j: int| 0 <= j < i ==> ids@[j] == (#[trigger] views(self.states@)[j]).window,
            decreases self.states@.len() - i,
        {
            ids.push(self.states[i].window_id());
            i += 1;
        }
        ids
    }

    /// The number of engines.
    pub fn len(&self) -> (n: usize)
        ensures
            n == self@.len(),
    {
        self.states.len()
    }

    /// The engine whose overlay window is `id`, if there is one.
    pub fn get(&self, id: u64) -> (found: Option<&SnowState>)
        requires
            self.wf(),
        ensures
            found.is_some() <==> knows(self@, id),
            found matches Some(e) ==> e@ == self@[slot_of(self@, id)] && e.wf(),
    {
        let ghost all = views(self.states@);
        let mut i: usize = 0;
        while i < self.states.len()
            invariant
                i <= self.states@.len(),
                all == views(self.states@),
                distinct(all),
                all_wf(self.states@),
                forall|j: int| 0 <= j < i ==> (#[trigger] all[j]).window != id,
            decreases self.states@.len() - i,
        {
            if self.states[i].window_id() == id {
                assert(all[i as int].window == id);
                assert(slot_of(all, id) == i) by {
                    let c = slot_of(all, id);
                    if c < i {
                        assert(all[c].window != all[i as int].window);
                    } else if i < c {
                        assert(all[i as int].window != all[c].window);
                    }
                }
                return Some(&self.states[i]);
            }
            i += 1;
        }
        assert(!knows(all, id));
        None
    }

    /// The overlay windows for which a redraw is to be asked: those of the
    /// engines that run.
    pub fn redraw(&self) -> (ids: Vec<u64>)
        ensures
            ids@ == redraws(self@),
    {
        let mut ids: Vec<u64> = Vec::new();
        let mut i: usize = 0;
        while i < self.states.len()
            invariant
                i <= self.states@.len(),
                ids@ == redraws(views(self.states@).take(i as int)),
            decreases self.states@.len() - i,
        {
            proof {
                let next = views(self.states@).take(i + 1);
                assert(next.drop_last() =~= views(self.states@).take(i as int));
                assert(next.last() == self.states@[i as int]@);
            }
            if self.states[i].redraw() {
                ids.push(self.states[i].window_id());
            }
            i += 1;
        }
        assert(views(self.states@).take(self.states@.len() as int) =~= views(self.states@));
        ids
    }

    /// Hands the event to the engine whose overlay window is `id`, and says
    /// whether a redraw of that window is to be asked for at once. Where no
    /// engine has that window, nothing changes and `None` is given.
    pub fn event(&mut self, id: u64, event: WindowEvent) -> (redraw: Option<bool>)
        requires
            old(self).wf(),
        ensures
            final(self).wf(),
            knows(old(self)@, id) ==> redraw == Some(SnowView::redraw_on(event)) && final(self)@
                == dispatched(old(self)@, slot_of(old(self)@, id), event),
            !knows(old(self)@, id) ==> redraw.is_none() && final(self)@ == old(self)@,
    {
        let ghost before = views(self.states@);
        let mut i: usize = 0;
        while i < self.states.len()
            invariant
                i <= self.states@.len(),
                self.states@ == old(self).states@,
                before == views(self.states@),
                distinct(before),
                all_wf(self.states@),
                forall|j: int| 0 <= j < i ==> (#[trigger] before[j]).window != id,
            decreases self.states@.len() - i,
        {
            if self.states[i].window_id() == id {
                assert(before[i as int].window == id);
                assert(slot_of(before, id) == i) by {
                    let c = slot_of(before, id);
                    if c < i {
                        assert(before[c].window != before[i as int].window);
                    } else if i < c {
                        assert(before[i as int].window != before[c].window);
                    }
                }
                let redraw = self.states[i].event(event);
                assert(views(self.states@) =~= dispatched(before, i as int, event));
                assert forall|a: int, b: int| 0 <= a < b < self.states@.len() implies (
                #[trigger] views(self.states@)[a]).window != (#[trigger] views(
                    self.states@,
                )[b]).window by {
                    assert(before[a].window != before[b].window);
                }
                return Some(redraw);
            }
            i += 1;
        }
        assert(!knows(before, id));
        None
    }

    /// Reads the frame clock of every engine at `now`: gives for each engine,
    /// in the engines' order, the nanoseconds since its creation and since
    /// the reading before.
    pub fn clock(&mut self, now: u64) -> (passed: Vec<(u64, u64)>)
        requires
            old(self).wf(),
        ensures
            final(self).wf(),
            final(self)@.len() == old(self)@.len(),
            passed@.len() == old(self)@.len(),
            forall|i: int|
                0 <= i < old(self)@.len() ==> (#[trigger] final(self)@[i]) == old(self)@[i].clock(
                    now,
                ),
            forall|i: int|
                0 <= i < old(self)@.len() ==> (#[trigger] passed@[i]) == (
                    old(self)@[i].elapsed(now),
                    old(self)@[i].delta(now),
                ),
    {
        let ghost before = views(self.states@);
        let mut passed: Vec<(u64, u64)> = Vec::new();
        let mut i: usize = 0;
        while i < self.states.len()
            invariant
                i <= self.states@.len(),
                self.states@.len() == before.len(),
                distinct(before),
                all_wf(self.states@),
                passed@.len() == i,
                forall|j: int|
                    0 <= j < before.len() ==> (#[trigger] views(self.states@)[j]).window
                        == before[j].window,
                forall|j: int|
                    0 <= j < i ==> (#[trigger] views(self.states@)[j]) == before[j].clock(now),
                forall|j: int|
                    i <= j < before.len() ==> (#[trigger] views(self.states@)[j]) == before[j],
                forall|j: int|
                    0 <= j < i ==> (#[trigger] passed@[j]) == (
                        before[j].elapsed(now),
                        before[j].delta(now),
                    ),
            decreases self.states@.len() - i,
        {
            let ghost mid = views(self.states@);
            assert(mid[i as int] == before[i as int]);
            let read = self.states[i].clock(now);
            passed.push(read);
            assert forall|j: int| 0 <= j < before.len() implies (#[trigger] views(
                self.states@,
            )[j]).window == before[j].window by {
                if j != i {
                    assert(views(self.states@)[j] == mid[j]);
                }
            }
            assert forall|j: int| 0 <= j < i + 1 implies (#[trigger] views(self.states@)[j])
                == before[j].clock(now) by {
                if j != i {
                    assert(views(self.states@)[j] == mid[j]);
                }
            }
            assert forall|j: int| i + 1 <= j < before.len() implies (#[trigger] views(
                self.states@,
            )[j]) == before[j] by {
                assert(views(self.states@)[j] == mid[j]);
            }
            i += 1;
        }
        proof {
            lemma_distinct_kept(before, views(self.states@));
        }
        passed
    }

    /// One tick: engine `i` takes `ticks[i]`, as far as there are ticks, and
    /// the other engines stay as they are. Gives for each engine that took
    /// one the bytes to write at the start of its GPU window buffer.
    pub fn update(&mut self, ticks: &Vec<Tick>) -> (writes: Vec<Vec<u8>>)
        requires
            old(self).wf(),
        ensures
            final(self).wf(),
            final(self)@.len() == old(self)@.len(),
            writes@.len() == reached(old(self)@.len() as int, ticks@.len() as int),
            forall|i: int|
                0 <= i < writes@.len() ==> (#[trigger] final(self)@[i]) == old(self)@[i].update(
                    ticks@[i].time,
                    ticks@[i].dt,
                    ticks@[i].windows@,
                ),
            forall|i: int|
                writes@.len() <= i < old(self)@.len() ==> (#[trigger] final(self)@[i]) == old(
                    self,
                )@[i],
            forall|i: int|
                0 <= i < writes@.len() ==> (#[trigger] writes@[i])@ == records_bytes(
                    base_rects(ticks@[i].windows@).take(
                        taken(
                            base_rects(ticks@[i].windows@).len() as int,
                            MAX_WINDOWS as int,
                        ),
                    ),
                ),
    {
        let ghost before = views(self.states@);
        let mut writes: Vec<Vec<u8>> = Vec::new();
        let mut i: usize = 0;
        while i < self.states.len() && i < ticks.len()
            invariant
                i <= self.states@.len(),
                i <= ticks@.len(),
                self.states@.len() == before.len(),
                distinct(before),
                all_wf(self.states@),
                writes@.len() == i,
                forall|j: int| 0 <= j < before.len() ==> (#[trigger] views(self.states@)[j]).window == before[j].window,
                forall|j: int|
                    0 <= j < i ==> (#[trigger] views(self.states@)[j]) == before[j].update(
                        ticks@[j].time,
                        ticks@[j].dt,
                        ticks@[j].windows@,
                    ),
                forall|j: int| i <= j < before.len() ==> (#[trigger] views(self.states@)[j]) == before[j],
                forall|j: int|
                    0 <= j < i ==> (#[trigger] writes@[j])@ == records_bytes(
                        base_rects(ticks@[j].windows@).take(
                            taken(
                                base_rects(ticks@[j].windows@).len() as int,
                                MAX_WINDOWS as int,
                            ),
                        ),
                    ),
            decreases self.states@.len() - i,
        {
            let ghost mid = views(self.states@);
            assert(mid[i as int] == before[i as int]);
            let tick = &ticks[i];
            let bytes = self.states[i].update(tick.time, tick.dt, &tick.windows);
            writes.push(bytes);
            assert forall|j: int| 0 <= j < before.len() implies (#[trigger] views(
                self.states@,
            )[j]).window == before[j].window by {
                if j != i {
                    assert(views(self.states@)[j] == mid[j]);
                }
            }
            assert forall|j: int| 0 <= j < i + 1 implies (#[trigger] views(self.states@)[j])
                == before[j].update(ticks@[j].time, ticks@[j].dt, ticks@[j].windows@) by {
                if j != i {
                    assert(views(self.states@)[j] == mid[j]);
                }
            }
            assert forall|j: int| i + 1 <= j < before.len() implies (#[trigger] views(
                self.states@,
            )[j]) == before[j] by {
                assert(views(self.states@)[j] == mid[j]);
            }
            i += 1;
        }
        proof {
            lemma_distinct_kept(before, views(self.states@));
        }
        writes
    }

    /// One frame of every display, in the engines' order: engine `i` renders
    /// with `acquired[i]`, as far as there are outcomes. The first error ends
    /// the frame and is handed on: the engines before it are drawn, each by
    /// its plan, the one that met it has only pushed its uniform, and those
    /// after it are not reached.
    pub fn render(&mut self, acquired: &Vec<Result<(), SurfaceError>>) -> (frame: (
        Vec<FramePlan>,
        Result<(), SurfaceError>,
    ))
        requires
            old(self).wf(),
        ensures
            final(self).wf(),
            final(self)@.len() == old(self)@.len(),
            ({
                let n = reached(old(self)@.len() as int, acquired@.len() as int);
                let stop = first_error(acquired@.take(n));
                let done = if stop < n {
                    stop + 1
                } else {
                    n
                };
                &&& 0 <= stop <= n
                &&& forall|i: int|
                    0 <= i < done ==> (#[trigger] final(self)@[i]) == old(self)@[i].render()
                &&& forall|i: int|
                    done <= i < old(self)@.len() ==> (#[trigger] final(self)@[i]) == old(self)@[i]
                &&& frame.0@.len() == stop
                &&& forall|i: int|
                    0 <= i < stop ==> (#[trigger] frame.0@[i]) == frame_plan(
                        old(self)@[i].particle_count,
                    )
                &&& stop < n ==> frame.1 == Err::<(), SurfaceError>(acquired@[stop]->Err_0)
                &&& stop == n ==> frame.1 == Ok::<(), SurfaceError>(())
            }),
    {
        let ghost before = views(self.states@);
        let ghost n = reached(before.len() as int, acquired@.len() as int);
        let mut plans: Vec<FramePlan> = Vec::new();
        let mut i: usize = 0;
        while i < self.states.len() && i < acquired.len()
            invariant
                i <= n,
                before == old(self)@,
                n == reached(before.len() as int, acquired@.len() as int),
                self.states@.len() == before.len(),
                distinct(before),
                all_wf(self.states@),
                plans@.len() == i,
                first_error(acquired@.take(i as int)) == i,
                forall|j: int| 0 <= j < before.len() ==> (#[trigger] views(self.states@)[j]).window == before[j].window,
                forall|j: int| 0 <= j < i ==> (#[trigger] views(self.states@)[j]) == before[j].render(),
                forall|j: int| i <= j < before.len() ==> (#[trigger] views(self.states@)[j]) == before[j],
                forall|j: int|
                    0 <= j < i ==> (#[trigger] plans@[j]) == frame_plan(
                        before[j].particle_count,
                    ),
            decreases self.states@.len() - i,
        {
            let ghost mid = views(self.states@);
            assert(mid[i as int] == before[i as int]);
            let outcome = self.states[i].render(acquired[i]);
            proof {
                let next = acquired@.take(i + 1);
                assert(next.drop_last() =~= acquired@.take(i as int));
                assert(next.last() == acquired@[i as int]);
            }
            assert forall|j: int| 0 <= j < before.len() implies (#[trigger] views(
                self.states@,
            )[j]).window == before[j].window by {
                if j != i {
                    assert(views(self.states@)[j] == mid[j]);
                }
            }
            assert forall|j: int| 0 <= j < i + 1 implies (#[trigger] views(self.states@)[j])
                == before[j].render() by {
                if j != i {
                    assert(views(self.states@)[j] == mid[j]);
                }
            }
            assert forall|j: int| i + 1 <= j < before.len() implies (#[trigger] views(
                self.states@,
            )[j]) == before[j] by {
                assert(views(self.states@)[j] == mid[j]);
            }
            match outcome {
                Err(e) => {
                    proof {
                        assert(acquired@.take(n).take(i + 1) =~= acquired@.take(i + 1));
                        lemma_first_error_stays(acquired@.take(n), i as int);
                        lemma_distinct_kept(before, views(self.states@));
                    }
                    return (plans, Err(e));
                },
                Ok(plan) => {
                    plans.push(plan);
                },
            }
            i += 1;
        }
        proof {
            lemma_distinct_kept(before, views(self.states@));
            assert(acquired@.take(n).take(i as int) =~= acquired@.take(i as int));
            assert(acquired@.take(n) =~= acquired@.take(i as int));
        }
        (plans, Ok(()))
    }
}

/// Engines with the same overlay windows in the same places are distinct
/// where the first ones are.
proof fn lemma_distinct_kept(a: Seq<SnowView>, b: Seq<SnowView>)
    requires
        distinct(a),
        a.len() == b.len(),
        forall|j: int| 0 <= j < a.len() ==> (#[trigger] b[j]).window == a[j].window,
    ensures
        distinct(b),
{
    assert forall|i: int, j: int| 0 <= i < j < b.len() implies (#[trigger] b[i]).window != (
    #[trigger] b[j]).window by {
        assert(a[i].window != a[j].window);
    }
}

/// An error found among the first `k + 1` outcomes, at place `k`, is the
/// first error of all.
proof fn lemma_first_error_stays(acquired: Seq<Result<(), SurfaceError>>, k: int)
    requires
        0 <= k < acquired.len(),
        first_error(acquired.take(k + 1)) == k,
    ensures
        first_error(acquired) == k,
    decreases acquired.len(),
{
    if acquired.len() > k + 1 {
        assert(acquired.drop_last().take(k + 1) =~= acquired.take(k + 1));
        lemma_first_error_stays(acquired.drop_last(), k);
    } else {
        assert(acquired.take(k + 1) =~= acquired);
    }
}

} // verus!
