//! Waiting for a sequence of frames: which frames are recorded, and when each
//! awaited label counts as seen.

use crate::text::texts;
use crate::trace::{describe, entry_line, rendering, Rendering, Unreadable};
use crate::wire::{Frame, FrameView};
use vstd::prelude::*;

verus! {

/// The state of a wait, as mathematics.
pub struct WaitView {
    /// The labels to wait for, in order.
    pub targets: Seq<Seq<char>>,
    /// The codes of the error and notice fields to show.
    pub filter: Seq<char>,
    /// The labels that are kept out of the trace.
    pub ignore: Seq<Seq<char>>,
    /// How many of the targets have been seen.
    pub seen: nat,
    /// The lines recorded so far, in the order of arrival.
    pub trace: Seq<Seq<char>>,
}

impl WaitView {
    /// Every target has been seen.
    pub open spec fn done(self) -> bool {
        self.seen >= self.targets.len()
    }

    /// The state after one more frame, while a target is still awaited; `None`
    /// where the frame's body cannot be read.
    ///
    /// A frame that leaves no entry, and one whose label is ignored, change
    /// nothing. Any other frame is recorded, and counts for the awaited
    /// target where its label is that target.
    pub open spec fn observe(self, frame: FrameView, lead: char) -> Option<WaitView> {
        match rendering(frame, lead, self.filter) {
            Rendering::Skip => Some(self),
            Rendering::Unreadable => None,
            Rendering::Line { label, args } => if self.ignore.contains(label) {
                Some(self)
            } else {
                Some(
                    WaitView {
                        seen: if !self.done() && label == self.targets[self.seen as int] {
                            self.seen + 1
                        } else {
                            self.seen
                        },
                        trace: self.trace.push(entry_line(label, args)),
                        ..self
                    },
                )
            },
        }
    }

    /// The state after the frames in order, each with the leading byte that
    /// it was read with. Frames are taken while a target is awaited; the wait
    /// fails at the first frame whose body cannot be read.
    pub open spec fn run(self, frames: Seq<(FrameView, char)>) -> Option<WaitView>
        decreases frames.len(),
    {
        if frames.len() == 0 || self.done() {
            Some(self)
        } else {
            match self.observe(frames[0].0, frames[0].1) {
                Some(next) => next.run(frames.skip(1)),
                None => None,
            }
        }
    }
}

/// The label of a frame's entry; `None` where the frame leaves no entry or
/// cannot be read.
pub open spec fn label_of(frame: FrameView, lead: char, filter: Seq<char>) -> Option<Seq<char>> {
    match rendering(frame, lead, filter) {
        Rendering::Line { label, args } => Some(label),
        _ => None,
    }
}

/// A wait in progress: the targets, what to show and what to ignore, and the
/// trace so far.
#[derive(Debug)]
pub struct Wait {
    targets: Vec<String>,
    err_field_typs: Vec<char>,
    ignore: Vec<String>,
    seen: usize,
    trace: Vec<String>,
}

impl View for Wait {
    type V = WaitView;

    closed spec fn view(&self) -> WaitView {
        WaitView {
            targets: texts(self.targets@),
            filter: self.err_field_typs@,
            ignore: texts(self.ignore@),
            seen: self.seen as nat,
            trace: texts(self.trace@),
        }
    }
}

/// Whether the list holds the text.
pub fn holds_text(list: &Vec<String>, text: &String) -> (found: bool)
    ensures
        found == texts(list@).contains(text@),
{
    let mut i: usize = 0;
    while i < list.len()
        invariant
            i <= list.len(),
            forall|k: int| 0 <= k < i ==> texts(list@)[k] != text@,
        decreases list.len() - i,
    {
        if list[i] == *text {
            assert(texts(list@)[i as int] == text@);
            return true;
        }
        i += 1;
    }
    false
}

impl Wait {
    /// Starts a wait for `targets` in order, with an empty trace.
    pub fn new(targets: Vec<String>, err_field_typs: Vec<char>, ignore: Vec<String>) -> (w: Wait)
        ensures
            w@ == (WaitView {
                targets: texts(targets@),
                filter: err_field_typs@,
                ignore: texts(ignore@),
                seen: 0,
                trace: Seq::empty(),
            }),
    {
        let w = Wait { targets, err_field_typs, ignore, seen: 0, trace: Vec::new() };
        assert(texts(w.trace@) =~= Seq::<Seq<char>>::empty());
        w
    }

    /// Whether every target has been seen.
    pub fn is_done(&self) -> (done: bool)
        ensures
            done == self@.done(),
    {
        self.seen >= self.targets.len()
    }

    /// The target that is awaited now; `None` once every target has been
    /// seen.
    pub fn expecting(&self) -> (target: Option<&String>)
        ensures
            target is Some <==> !self@.done(),
            target matches Some(t) ==> t@ == self@.targets[self@.seen as int],
    {
        if self.seen < self.targets.len() {
            Some(&self.targets[self.seen])
        } else {
            None
        }
    }

    /// The lines recorded so far, in the order of arrival.
    pub fn trace(&self) -> (lines: &Vec<String>)
        ensures
            texts(lines@) == self@.trace,
    {
        &self.trace
    }

    /// Takes one frame into account, given the leading byte that it was read
    /// with. Where the frame's body cannot be read, the wait stays as it was.
    pub fn observe(&mut self, frame: &Frame, lead: char) -> (r: Result<(), Unreadable>)
        ensures
            match old(self)@.observe(frame@, lead) {
                Some(next) => r is Ok && final(self)@ == next,
                None => r is Err && final(self)@ == old(self)@,
            },
    {
        match describe(frame, lead, &self.err_field_typs) {
            Err(e) => Err(e),
            Ok(None) => Ok(()),
            Ok(Some(entry)) => {
                if holds_text(&self.ignore, &entry.label) {
                    return Ok(());
                }
                let hit = self.seen < self.targets.len() && self.targets[self.seen] == entry.label;
                self.trace.push(entry.to_line());
                if hit {
                    self.seen = self.seen + 1;
                }
                assert(texts(self.trace@) =~= texts(old(self).trace@).push(entry.line()));
                Ok(())
            },
        }
    }
}

/// The frame leaves no mark on the wait: it has no entry, or its label is
/// ignored.
pub open spec fn silent(w: WaitView, frame: FrameView, lead: char) -> bool {
    match rendering(frame, lead, w.filter) {
        Rendering::Skip => true,
        Rendering::Line { label, args } => w.ignore.contains(label),
        Rendering::Unreadable => false,
    }
}

/// A silent frame changes nothing in a wait: it is not recorded, and the
/// target that was awaited is still awaited, so that a later frame with the
/// target's label counts for it.
pub proof fn silent_frame_changes_nothing(w: WaitView, frame: FrameView, lead: char)
    requires
        silent(w, frame, lead),
    ensures
        w.observe(frame, lead) == Some(w),
{
}

/// A parameter status is silent in every wait, whatever the wait awaits,
/// shows or ignores: it is dropped, and never counts for a target, even
/// where a target names it.
pub proof fn parameter_status_is_silent(w: WaitView, lead: char)
    ensures
        silent(w, FrameView::ParameterStatus, lead),
        w.observe(FrameView::ParameterStatus, lead) == Some(w),
{
}

/// A frame whose label is ignored is silent: it stays out of the trace and
/// does not count, even where its label is the awaited target.
pub proof fn ignored_frame_is_silent(w: WaitView, frame: FrameView, lead: char)
    requires
        label_of(frame, lead, w.filter) matches Some(label) && w.ignore.contains(label),
    ensures
        silent(w, frame, lead),
        w.observe(frame, lead) == Some(w),
{
}

/// Silent frames between other frames do not change where a wait ends: with
/// one put anywhere among the frames that the wait takes, the wait ends in
/// the same state.
pub proof fn silent_frames_do_not_count(
    w: WaitView,
    frames: Seq<(FrameView, char)>,
    at: int,
    frame: FrameView,
    lead: char,
)
    requires
        0 <= at <= frames.len(),
        silent(w, frame, lead),
        w.run(frames.take(at)) matches Some(reached) && !reached.done(),
    ensures
        w.run(frames.insert(at, (frame, lead))) == w.run(frames),
    decreases at,
{
    let more = frames.insert(at, (frame, lead));
    if at == 0 {
        assert(frames.take(0) =~= Seq::<(FrameView, char)>::empty());
        assert(more.skip(1) =~= frames);
    } else {
        assert(frames.take(at)[0] == frames[0]);
        assert(frames.take(at).skip(1) =~= frames.skip(1).take(at - 1));
        assert(more[0] == frames[0]);
        assert(more.skip(1) =~= frames.skip(1).insert(at - 1, (frame, lead)));
        if !w.done() {
            match w.observe(frames[0].0, frames[0].1) {
                Some(next) => {
                    silent_frames_do_not_count(next, frames.skip(1), at - 1, frame, lead);
                },
                None => {},
            }
        }
    }
}

/// A frame that is not silent is recorded as the last line of the trace, and
/// counts for the awaited target exactly where its label is that target.
pub proof fn recorded_frame_counts_once(w: WaitView, frame: FrameView, lead: char)
    requires
        !w.done(),
        label_of(frame, lead, w.filter) matches Some(label) && !w.ignore.contains(label),
    ensures
        w.observe(frame, lead) matches Some(next) && next.trace.len() == w.trace.len() + 1
            && next.trace.drop_last() == w.trace && (next.seen == w.seen + 1 <==> label_of(
            frame,
            lead,
            w.filter,
        ) == Some(w.targets[w.seen as int])) && (next.seen == w.seen || next.seen == w.seen + 1),
{
    let next = w.observe(frame, lead).unwrap();
    assert(next.trace.drop_last() =~= w.trace);
}

/// A wait for N targets counts at most N frames as matches, whatever
/// arrives, and exactly N once it is done. Every match has a line of its own
/// in the trace, and the trace only grows.
pub proof fn matches_are_bounded(w: WaitView, frames: Seq<(FrameView, char)>)
    requires
        w.seen <= w.targets.len(),
    ensures
        w.run(frames) matches Some(end) ==> {
            &&& end.targets == w.targets
            &&& w.seen <= end.seen <= end.targets.len()
            &&& end.seen - w.seen <= end.trace.len() - w.trace.len()
            &&& end.done() ==> end.seen == end.targets.len()
        },
    decreases frames.len(),
{
    if frames.len() == 0 || w.done() {
    } else {
        match w.observe(frames[0].0, frames[0].1) {
            Some(next) => {
                matches_are_bounded(next, frames.skip(1));
            },
            None => {},
        }
    }
}

/// No line of an ignored label enters the trace: a wait keeps its trace, or
/// adds the line of a frame whose label is not ignored.
pub proof fn trace_grows_by_recorded_frames(w: WaitView, frame: FrameView, lead: char)
    ensures
        w.observe(frame, lead) matches Some(next) ==> (next.trace == w.trace || (label_of(
            frame,
            lead,
            w.filter,
        ) matches Some(label) && !w.ignore.contains(label) && next.trace == w.trace.push(
            entry_line(label, rendering(frame, lead, w.filter)->args),
        ))),
{
}

} // verus!
