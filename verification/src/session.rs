//! The render loop's decision core: a fold of bridge messages into the
//! peak meter.
//!
//! The hosting process owns the blocking receive and the terminal write;
//! this function owns every decision in between. Render output arises
//! only from incoming block summaries — a session that never delivers a
//! block produces no frame — and a stop message ends the session with
//! everything before it processed and nothing after it.

use vstd::prelude::*;
use crate::meter::{frame_matches, renders, step, PeakDisplay, RenderFrame};

verus! {

/// One message over the bridge, as the render loop sees it.
#[derive(Clone, Copy)]
pub enum MeterEvent {
    /// One block summary: the block's loudest level, in centi-dB, and
    /// the time it is processed, in milliseconds.
    Peak { level: Option<i32>, at_ms: u64 },
    /// The stop signal.
    Quit,
}

/// When a block summary is processed.
pub open spec fn event_at(e: MeterEvent) -> u64 {
    match e {
        MeterEvent::Peak { at_ms, .. } => at_ms,
        MeterEvent::Quit => 0,
    }
}

/// A block summary no older than the meter's own clock.
pub open spec fn peak_ready(d: PeakDisplay, e: MeterEvent) -> bool {
    e matches MeterEvent::Peak { level, at_ms } ==> (at_ms >= d.last_print && at_ms >= d.dtime)
}

/// The events carry monotone times, none older than the meter's clock.
pub open spec fn events_ordered(d: PeakDisplay, events: Seq<MeterEvent>) -> bool {
    &&& forall|i: int| 0 <= i < events.len() ==> peak_ready(d, #[trigger] events[i])
    &&& forall|i: int, j: int|
        #![trigger events[i], events[j]]
        0 <= i < j < events.len() && events[i] is Peak && events[j] is Peak ==> event_at(events[i])
            <= event_at(events[j])
}

/// What one session leaves behind: the meter's final state and how many
/// frames were rendered. Block summaries fold into the meter one by one;
/// the first stop message ends the session with everything after it
/// untouched.
pub open spec fn session_result(d: PeakDisplay, events: Seq<MeterEvent>) -> (PeakDisplay, int)
    decreases events.len(),
{
    if events.len() == 0 {
        (d, 0)
    } else {
        match events[0] {
            MeterEvent::Quit => (d, 0),
            MeterEvent::Peak { level, at_ms } => {
                let rest = session_result(step(d, level, at_ms), events.drop_first());
                (rest.0, rest.1 + if renders(d, at_ms) {
                    1int
                } else {
                    0int
                })
            },
        }
    }
}

/// The session's output, frame by frame: each rendering block summary
/// contributes exactly the frame that the meter's state at that tick
/// prescribes, in order; throttled summaries and everything from the
/// first stop message on contribute nothing.
pub open spec fn frames_match(
    d: PeakDisplay,
    events: Seq<MeterEvent>,
    frames: Seq<RenderFrame>,
) -> bool
    decreases events.len(),
{
    if events.len() == 0 {
        frames.len() == 0
    } else {
        match events[0] {
            MeterEvent::Quit => frames.len() == 0,
            MeterEvent::Peak { level, at_ms } => {
                if renders(d, at_ms) {
                    &&& frames.len() > 0
                    &&& frame_matches(d, level, at_ms, frames[0])
                    &&& frames_match(step(d, level, at_ms), events.drop_first(), frames.drop_first())
                } else {
                    frames_match(step(d, level, at_ms), events.drop_first(), frames)
                }
            },
        }
    }
}

/// Runs one session of the render loop: feeds each block summary into
/// the meter, collects the frames the throttle lets through, and stops
/// at the first stop message.
///
/// A session without any block summary renders nothing: no timer fires
/// on its own.
pub fn run_meter(display: &mut PeakDisplay, events: &Vec<MeterEvent>) -> (frames: Vec<RenderFrame>)
    requires
        old(display).wf(),
        events_ordered(*old(display), events@),
    ensures
        final(display).wf(),
        final(display).cells == old(display).cells,
        *final(display) == session_result(*old(display), events@).0,
        frames@.len() == session_result(*old(display), events@).1,
        frames_match(*old(display), events@, frames@),
        frames@.len() <= events@.len(),
        (forall|i: int| 0 <= i < events@.len() ==> !(#[trigger] events@[i] is Peak))
            ==> frames@.len() == 0,
{
    let mut frames: Vec<RenderFrame> = Vec::new();
    let n = events.len();
    proof {
        assert(events@.skip(0) =~= events@);
        assert forall|rest: Seq<RenderFrame>|
            frames_match(*display, events@.skip(0), rest) implies frames_match(
            *old(display),
            events@,
            frames@ + rest,
        ) by {
            assert(frames@ + rest =~= rest);
        }
    }
    let mut i: usize = 0;
    while i < n
        invariant
            display.wf(),
            display.cells == old(display).cells,
            n == events@.len(),
            i <= n,
            frames@.len() <= i,
            session_result(*old(display), events@).0 == session_result(
                *display,
                events@.skip(i as int),
            ).0,
            session_result(*old(display), events@).1 == frames@.len() + session_result(
                *display,
                events@.skip(i as int),
            ).1,
            forall|rest: Seq<RenderFrame>|
                frames_match(*display, events@.skip(i as int), rest) ==> frames_match(
                    *old(display),
                    events@,
                    frames@ + rest,
                ),
            (forall|j: int| 0 <= j < i ==> !(#[trigger] events@[j] is Peak)) ==> frames@.len()
                == 0,
            forall|j: int|
                i <= j < n ==> peak_ready(*display, #[trigger] events@[j]),
            forall|j1: int, j2: int|
                #![trigger events@[j1], events@[j2]]
                i <= j1 < j2 < n && events@[j1] is Peak && events@[j2] is Peak ==> event_at(
                    events@[j1],
                ) <= event_at(events@[j2]),
        decreases n - i,
    {
        let e = events[i];
        let ghost d_pre = *display;
        let ghost frames_pre = frames@;
        proof {
            assert(events@.skip(i as int)[0] == events@[i as int]);
            assert(events@.skip(i as int).drop_first() =~= events@.skip(i as int + 1));
        }
        match e {
            MeterEvent::Peak { level, at_ms } => {
                let frame = display.update(level, at_ms);
                if let Some(f) = frame {
                    let ghost gf = f;
                    frames.push(f);
                    proof {
                        assert forall|rest: Seq<RenderFrame>|
                            frames_match(*display, events@.skip(i as int + 1), rest)
                                implies frames_match(
                            *old(display),
                            events@,
                            frames@ + rest,
                        ) by {
                            let fr = seq![gf] + rest;
                            assert(fr[0] == gf);
                            assert(fr.drop_first() =~= rest);
                            assert(frames_match(d_pre, events@.skip(i as int), fr));
                            assert(frames_match(*old(display), events@, frames_pre + fr));
                            assert(frames@ + rest =~= frames_pre + fr);
                        }
                    }
                } else {
                    proof {
                        assert forall|rest: Seq<RenderFrame>|
                            frames_match(*display, events@.skip(i as int + 1), rest)
                                implies frames_match(
                            *old(display),
                            events@,
                            frames@ + rest,
                        ) by {
                            assert(frames_match(d_pre, events@.skip(i as int), rest));
                            assert(frames_match(*old(display), events@, frames_pre + rest));
                        }
                    }
                }
                proof {
                    assert forall|j: int|
                        i + 1 <= j < n implies peak_ready(*display, #[trigger] events@[j]) by {
                        if events@[j] is Peak {
                            assert(event_at(events@[j]) >= event_at(events@[i as int]));
                        }
                    }
                }
            },
            MeterEvent::Quit => {
                proof {
                    let done = Seq::<RenderFrame>::empty();
                    assert(frames_match(*display, events@.skip(i as int), done));
                    assert(frames@ + done =~= frames@);
                }
                return frames;
            },
        }
        i += 1;
    }
    proof {
        let done = Seq::<RenderFrame>::empty();
        assert(events@.skip(n as int).len() == 0);
        assert(frames_match(*display, events@.skip(n as int), done));
        assert(frames@ + done =~= frames@);
    }
    frames
}

} // verus!
