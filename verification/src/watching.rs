//! The watching side: what to do about events and requests, step by step. Each
//! step names one thing to be done outside and takes what became of it.
use crate::masks::{dst_mask, dst_mask_bits, law_masks, src_mask, src_mask_bits};
use crate::path::FilePath;
use crate::records::{
    first_where, law_first_watched, law_put_entries, law_selects_named, named, put, records_of,
    selected, unselected, watched, Entry, EntryView, Records,
};
use crate::syncing::{copies, copy_command, copy_line, copy_outcome, copy_result, CommandLine};
use crate::types::{
    same_record, told, ActionView, FromTo, InotifyActions, InotifyResults, LoopCtrl, Record,
    RecordView, ResultsView, SuccOrFail, SuccOrFailView,
};
use vstd::prelude::*;
use vstd::string::*;

verus! {

/// A file to watch, and what for.
#[derive(Debug)]
pub struct WatchRequest {
    pub path: FilePath,
    pub mask: u32,
}

// Events

/// An event's next step.
#[derive(Debug)]
pub enum EventStep {
    /// Stop a watch.
    Unwatch(EventUnwatch),
    /// Have a record synced.
    Queue(EventQueue),
    /// Watch a file.
    Watch(EventWatch),
    /// Nothing is left to do.
    Finished(Result<(), String>),
}

#[derive(Debug)]
pub struct EventUnwatch {
    pub record: Record,
    pub watches: FromTo<i32>,
}

#[derive(Debug)]
pub struct EventQueue {
    pub record: Record,
    pub from: i32,
}

#[derive(Debug)]
pub struct EventWatch {
    pub record: Record,
    pub from: i32,
}

#[verifier::ext_equal]
pub enum EventView {
    Unwatch(RecordView, FromTo<i32>),
    Queue(RecordView, i32),
    Watch(RecordView, i32),
    Finished(Result<(), Seq<char>>),
}

impl View for EventStep {
    type V = EventView;

    open spec fn view(&self) -> EventView {
        match self {
            EventStep::Unwatch(u) => EventView::Unwatch(u.record@, u.watches),
            EventStep::Queue(q) => EventView::Queue(q.record@, q.from),
            EventStep::Watch(w) => EventView::Watch(w.record@, w.from),
            EventStep::Finished(r) => EventView::Finished(told(*r)),
        }
    }
}

/// An event of the watch `wd` concerns the first entry with that watch, if any: it
/// goes out of force, and the watch on its target is to be stopped.
pub open spec fn event_begun(s: Seq<EntryView>, wd: i32) -> (Seq<EntryView>, EventView) {
    let i = first_where(s, watched(wd));
    if i < s.len() {
        (s.remove(i), EventView::Unwatch(s[i].record, s[i].watches))
    } else {
        (s, EventView::Finished(Ok(())))
    }
}

/// With the target unwatched, the record is to be synced.
pub open spec fn event_unwatched(
    r: RecordView,
    w: FromTo<i32>,
    outcome: Result<(), Seq<char>>,
) -> EventView {
    match outcome {
        Ok(()) => EventView::Queue(r, w.from),
        Err(e) => EventView::Finished(Err(e)),
    }
}

/// With the target watched again, the record is in force again.
pub open spec fn event_watched(
    s: Seq<EntryView>,
    r: RecordView,
    from: i32,
    outcome: Result<i32, Seq<char>>,
) -> (Seq<EntryView>, EventView) {
    match outcome {
        Ok(to) => (put(s, r, FromTo { from, to }), EventView::Finished(Ok(()))),
        Err(e) => (s, EventView::Finished(Err(e))),
    }
}

/// Begins to handle an event of the watch `wd`.
pub fn begin_event(records: &mut Records, wd: i32) -> (step: EventStep)
    requires
        old(records).wf(),
    ensures
        final(records).wf(),
        (final(records)@, step@) == event_begun(old(records)@, wd),
{
    match records.take_watched(wd) {
        Some(e) => EventStep::Unwatch(EventUnwatch { record: e.record, watches: e.watches }),
        None => EventStep::Finished(Ok(())),
    }
}

impl EventUnwatch {
    /// The watch to stop: the one on the target.
    pub fn watch(&self) -> (id: i32)
        ensures
            id == self.watches.to,
    {
        self.watches.to
    }

    /// Goes on after the watch was stopped, or was not.
    pub fn unwatched(self, outcome: Result<(), String>) -> (step: EventStep)
        ensures
            step@ == event_unwatched(self.record@, self.watches, told(outcome)),
    {
        match outcome {
            Ok(()) => EventStep::Queue(EventQueue { record: self.record, from: self.watches.from }),
            Err(e) => EventStep::Finished(Err(e)),
        }
    }
}

impl EventQueue {
    /// The record to have synced.
    pub fn record(&self) -> (r: Record)
        ensures
            r@ == self.record@,
    {
        self.record.clone()
    }

    /// Goes on, whether the record could be handed over or not.
    pub fn queued(self) -> (step: EventStep)
        ensures
            step@ == EventView::Watch(self.record@, self.from),
    {
        EventStep::Watch(EventWatch { record: self.record, from: self.from })
    }
}

impl EventWatch {
    /// The file to watch: the target, for all that a source is watched for.
    pub fn request(&self) -> (w: WatchRequest)
        ensures
            w.path@ == self.record@.src_dst.to,
            w.mask == src_mask_bits(),
    {
        WatchRequest { path: self.record.src_dst.to.clone(), mask: src_mask() }
    }

    /// Goes on after the file was watched, or was not.
    pub fn watched(self, records: &mut Records, outcome: Result<i32, String>) -> (step: EventStep)
        requires
            old(records).wf(),
        ensures
            final(records).wf(),
            (final(records)@, step@) == event_watched(
                old(records)@,
                self.record@,
                self.from,
                told(outcome),
            ),
    {
        match outcome {
            Ok(to) => {
                records.insert(self.record, FromTo { from: self.from, to });
                EventStep::Finished(Ok(()))
            },
            Err(e) => EventStep::Finished(Err(e)),
        }
    }
}

// Requests

/// How a request ends.
#[derive(Debug, Clone, Copy, PartialEq, Eq, Structural)]
pub enum Ending {
    /// The results are sent to the one who asked.
    Answer,
    /// Nothing is sent.
    Silent(LoopCtrl),
}

/// A request's next step.
#[derive(Debug)]
pub enum ActionStep {
    /// Run a copy.
    Copy(CopyStep),
    /// Watch a file.
    Watch(WatchStep),
    /// Stop a watch.
    Unwatch(UnwatchStep),
    /// Nothing is left to do but to end.
    Finished { results: InotifyResults, ending: Ending },
}

#[derive(Debug)]
pub struct CopyStep {
    pub record: Record,
}

#[derive(Debug)]
pub enum WatchStep {
    Source(Record),
    Target(Record, i32),
}

#[derive(Debug)]
pub enum UnwatchStep {
    Source { entry: Entry, rest: Vec<Entry>, done: Vec<SuccOrFail> },
    Target {
        entry: Entry,
        rest: Vec<Entry>,
        done: Vec<SuccOrFail>,
        source: Result<(), String>,
    },
}

#[verifier::ext_equal]
pub enum StepView {
    Copy(RecordView),
    WatchSource(RecordView),
    WatchTarget(RecordView, i32),
    UnwatchSource { entry: EntryView, rest: Seq<EntryView>, done: Seq<SuccOrFailView> },
    UnwatchTarget {
        entry: EntryView,
        rest: Seq<EntryView>,
        done: Seq<SuccOrFailView>,
        source: Result<(), Seq<char>>,
    },
    Finished { results: ResultsView, ending: Ending },
}

impl View for WatchStep {
    type V = StepView;

    open spec fn view(&self) -> StepView {
        match self {
            WatchStep::Source(r) => StepView::WatchSource(r@),
            WatchStep::Target(r, from) => StepView::WatchTarget(r@, *from),
        }
    }
}

impl View for UnwatchStep {
    type V = StepView;

    open spec fn view(&self) -> StepView {
        match self {
            UnwatchStep::Source { entry, rest, done } => StepView::UnwatchSource {
                entry: entry@,
                rest: rest.deep_view(),
                done: done.deep_view(),
            },
            UnwatchStep::Target { entry, rest, done, source } => StepView::UnwatchTarget {
                entry: entry@,
                rest: rest.deep_view(),
                done: done.deep_view(),
                source: told(*source),
            },
        }
    }
}

impl View for ActionStep {
    type V = StepView;

    open spec fn view(&self) -> StepView {
        match self {
            ActionStep::Copy(c) => StepView::Copy(c.record@),
            ActionStep::Watch(w) => w@,
            ActionStep::Unwatch(u) => u@,
            ActionStep::Finished { results, ending } => StepView::Finished {
                results: results@,
                ending: *ending,
            },
        }
    }
}

/// An addition that failed with `e`.
pub open spec fn add_failed(e: Seq<char>) -> StepView {
    StepView::Finished { results: ResultsView::Add(Err(e)), ending: Ending::Answer }
}

/// An addition that is done.
pub open spec fn add_done() -> StepView {
    StepView::Finished { results: ResultsView::Add(Ok(())), ending: Ending::Answer }
}

/// A deletion with the entries `rest` to go.
pub open spec fn del_next(rest: Seq<EntryView>, done: Seq<SuccOrFailView>) -> StepView {
    if rest.len() == 0 {
        StepView::Finished { results: ResultsView::Del(Ok(done)), ending: Ending::Answer }
    } else {
        StepView::UnwatchSource { entry: rest[0], rest: rest.drop_first(), done }
    }
}

/// What a request begins with: an addition with a copy; a deletion with taking what
/// it selects out of force; the others end at once.
pub open spec fn action_begun(s: Seq<EntryView>, a: ActionView) -> (Seq<EntryView>, StepView) {
    match a {
        ActionView::Add(r) => (s, StepView::Copy(r)),
        ActionView::Del(wanted, me) => (
            s.filter(unselected(wanted, me)),
            del_next(s.filter(selected(wanted, me)), Seq::empty()),
        ),
        ActionView::List => (
            s,
            StepView::Finished {
                results: ResultsView::List(records_of(s)),
                ending: Ending::Silent(LoopCtrl::Continue),
            },
        ),
        ActionView::Stop => (
            s,
            StepView::Finished {
                results: ResultsView::List(Seq::empty()),
                ending: Ending::Silent(LoopCtrl::Break),
            },
        ),
    }
}

/// With the files in step, the source is to be watched.
pub open spec fn copied(r: RecordView, status: Result<bool, Seq<char>>) -> StepView {
    match copy_result(r, status) {
        Ok(()) => StepView::WatchSource(r),
        Err(e) => add_failed(e),
    }
}

/// With the source watched, the target is to be watched.
pub open spec fn source_watched(r: RecordView, outcome: Result<i32, Seq<char>>) -> StepView {
    match outcome {
        Ok(from) => StepView::WatchTarget(r, from),
        Err(e) => add_failed(e),
    }
}

/// With the target watched too, the record is in force.
pub open spec fn target_watched(
    s: Seq<EntryView>,
    r: RecordView,
    from: i32,
    outcome: Result<i32, Seq<char>>,
) -> (Seq<EntryView>, StepView) {
    match outcome {
        Ok(to) => (put(s, r, FromTo { from, to }), add_done()),
        Err(e) => (s, add_failed(e)),
    }
}

/// The outcome of stopping a watch, in words.
pub open spec fn unwatch_shown(outcome: Result<(), Seq<char>>) -> Seq<char> {
    match outcome {
        Ok(()) => "Ok(())"@,
        Err(e) => "Err("@ + e + ")"@,
    }
}

/// What is said of an entry whose watches were not both stopped.
pub open spec fn unwatch_failure(
    source: Result<(), Seq<char>>,
    target: Result<(), Seq<char>>,
) -> Seq<char> {
    "From "@ + unwatch_shown(source) + ", To "@ + unwatch_shown(target)
}

/// What is answered about an entry whose watches were to be stopped.
pub open spec fn del_verdict(
    e: EntryView,
    source: Result<(), Seq<char>>,
    target: Result<(), Seq<char>>,
) -> SuccOrFailView {
    if source is Ok && target is Ok {
        SuccOrFailView::Succ(e.record.src_dst)
    } else {
        SuccOrFailView::Fail {
            filenames: e.record.src_dst,
            error: unwatch_failure(source, target),
        }
    }
}

/// With the source of an entry dealt with, the watch on its target is to be stopped,
/// whether or not the one on the source was.
pub open spec fn source_unwatched(
    e: EntryView,
    rest: Seq<EntryView>,
    done: Seq<SuccOrFailView>,
    source: Result<(), Seq<char>>,
) -> StepView {
    StepView::UnwatchTarget { entry: e, rest, done, source }
}

/// With both watches of an entry dealt with, it stays out of force, or comes back if
/// one was not stopped.
pub open spec fn target_unwatched(
    s: Seq<EntryView>,
    e: EntryView,
    rest: Seq<EntryView>,
    done: Seq<SuccOrFailView>,
    source: Result<(), Seq<char>>,
    target: Result<(), Seq<char>>,
) -> (Seq<EntryView>, StepView) {
    (
        if source is Ok && target is Ok {
            s
        } else {
            put(s, e.record, e.watches)
        },
        del_next(rest, done.push(del_verdict(e, source, target))),
    )
}

fn next_deletion(mut rest: Vec<Entry>, done: Vec<SuccOrFail>) -> (step: ActionStep)
    ensures
        step@ == del_next(rest.deep_view(), done.deep_view()),
{
    if rest.len() == 0 {
        ActionStep::Finished { results: InotifyResults::Del(Ok(done)), ending: Ending::Answer }
    } else {
        let ghost all = rest.deep_view();
        let entry = rest.remove(0);
        assert(rest.deep_view() =~= all.drop_first());
        ActionStep::Unwatch(UnwatchStep::Source { entry, rest, done })
    }
}

/// Begins to do what is asked for.
pub fn begin_action(records: &mut Records, action: &InotifyActions) -> (step: ActionStep)
    requires
        old(records).wf(),
    ensures
        final(records).wf(),
        (final(records)@, step@) == action_begun(old(records)@, action@),
{
    match action {
        InotifyActions::Add(r) => ActionStep::Copy(CopyStep { record: r.clone() }),
        InotifyActions::Del(wanted, me) => {
            let taken = records.take_selected(wanted, *me);
            let done: Vec<SuccOrFail> = Vec::new();
            assert(done.deep_view() =~= Seq::<SuccOrFailView>::empty());
            next_deletion(taken, done)
        },
        InotifyActions::List => ActionStep::Finished {
            results: InotifyResults::List(records.keys()),
            ending: Ending::Silent(LoopCtrl::Continue),
        },
        InotifyActions::Stop => {
            let none: Vec<Record> = Vec::new();
            assert(none.deep_view() =~= Seq::<RecordView>::empty());
            ActionStep::Finished {
                results: InotifyResults::List(none),
                ending: Ending::Silent(LoopCtrl::Break),
            }
        },
    }
}

fn failed_addition(e: String) -> (step: ActionStep)
    ensures
        step@ == add_failed(e@),
{
    ActionStep::Finished { results: InotifyResults::Add(Err(e)), ending: Ending::Answer }
}

impl CopyStep {
    /// The copy to run.
    pub fn command(&self) -> (c: CommandLine)
        ensures
            c@ == copy_line(self.record@),
    {
        copy_command(&self.record)
    }

    /// Goes on after the copy ran with success or without, or could not be run.
    pub fn copied(self, status: Result<bool, String>) -> (step: ActionStep)
        ensures
            step@ == copied(self.record@, told(status)),
    {
        match copy_outcome(&self.record, status) {
            Ok(()) => ActionStep::Watch(WatchStep::Source(self.record)),
            Err(e) => failed_addition(e),
        }
    }
}

impl WatchStep {
    /// The file to watch, and what for.
    pub fn request(&self) -> (w: WatchRequest)
        ensures
            match *self {
                WatchStep::Source(r) => w.path@ == r@.src_dst.from && w.mask == src_mask_bits(),
                WatchStep::Target(r, _) => w.path@ == r@.src_dst.to && w.mask == dst_mask_bits(),
            },
    {
        match self {
            WatchStep::Source(r) => WatchRequest {
                path: r.src_dst.from.clone(),
                mask: src_mask(),
            },
            WatchStep::Target(r, _) => WatchRequest {
                path: r.src_dst.to.clone(),
                mask: dst_mask(),
            },
        }
    }

    /// Goes on after the file was watched, or was not.
    pub fn watched(self, records: &mut Records, outcome: Result<i32, String>) -> (step: ActionStep)
        requires
            old(records).wf(),
        ensures
            final(records).wf(),
            match self {
                WatchStep::Source(r) => final(records)@ == old(records)@ && step@ == source_watched(
                    r@,
                    told(outcome),
                ),
                WatchStep::Target(r, from) => (final(records)@, step@) == target_watched(
                    old(records)@,
                    r@,
                    from,
                    told(outcome),
                ),
            },
    {
        match outcome {
            Ok(id) => match self {
                WatchStep::Source(r) => ActionStep::Watch(WatchStep::Target(r, id)),
                WatchStep::Target(r, from) => {
                    records.insert(r, FromTo { from, to: id });
                    ActionStep::Finished {
                        results: InotifyResults::Add(Ok(())),
                        ending: Ending::Answer,
                    }
                },
            },
            Err(e) => failed_addition(e),
        }
    }
}

fn append_shown(t: &mut String, outcome: &Result<(), String>)
    ensures
        final(t)@ == old(t)@ + unwatch_shown(told(*outcome)),
{
    match outcome {
        Ok(_) => t.append("Ok(())"),
        Err(e) => {
            t.append("Err(");
            t.append(e.as_str());
            t.append(")");
            assert(t@ =~= old(t)@ + unwatch_shown(told(*outcome)));
        },
    }
}

fn unwatch_failure_text(source: &Result<(), String>, target: &Result<(), String>) -> (t: String)
    ensures
        t@ == unwatch_failure(told(*source), told(*target)),
{
    let mut t = "From ".to_owned();
    append_shown(&mut t, source);
    t.append(", To ");
    append_shown(&mut t, target);
    t
}

impl UnwatchStep {
    /// The watch to stop.
    pub fn watch(&self) -> (id: i32)
        ensures
            match *self {
                UnwatchStep::Source { entry, .. } => id == entry.watches.from,
                UnwatchStep::Target { entry, .. } => id == entry.watches.to,
            },
    {
        match self {
            UnwatchStep::Source { entry, .. } => entry.watches.from,
            UnwatchStep::Target { entry, .. } => entry.watches.to,
        }
    }

    /// Goes on after the watch was stopped, or was not.
    pub fn unwatched(self, records: &mut Records, outcome: Result<(), String>) -> (step: ActionStep)
        requires
            old(records).wf(),
        ensures
            final(records).wf(),
            match self {
                UnwatchStep::Source { entry, rest, done } => {
                    &&& final(records)@ == old(records)@
                    &&& step@ == source_unwatched(
                        entry@,
                        rest.deep_view(),
                        done.deep_view(),
                        told(outcome),
                    )
                },
                UnwatchStep::Target { entry, rest, done, source } => (final(records)@, step@)
                    == target_unwatched(
                    old(records)@,
                    entry@,
                    rest.deep_view(),
                    done.deep_view(),
                    told(source),
                    told(outcome),
                ),
            },
    {
        match self {
            UnwatchStep::Source { entry, rest, done } => ActionStep::Unwatch(
                UnwatchStep::Target { entry, rest, done, source: outcome },
            ),
            UnwatchStep::Target { entry, rest, mut done, source } => {
                let ghost before = done.deep_view();
                let filenames = entry.record.src_dst.clone();
                let verdict = if source.is_err() || outcome.is_err() {
                    let error = unwatch_failure_text(&source, &outcome);
                    records.insert(entry.record, entry.watches);
                    SuccOrFail::Fail { filenames, error }
                } else {
                    SuccOrFail::Succ(filenames)
                };
                done.push(verdict);
                assert(done.deep_view() =~= before.push(verdict@));
                next_deletion(rest, done)
            },
        }
    }
}

// Rounds

/// Trying to read events gave those of some watches, or found none yet, or failed.
#[derive(Debug)]
pub enum EventsRead {
    Events(Vec<i32>),
    WouldBlock,
    Failed(String),
}

/// A round's next step.
#[derive(Debug)]
pub enum RoundStep {
    /// Handle an event; the others are left for later.
    Event { step: EventStep, rest: Vec<i32> },
    /// See whether there is a request.
    TakeRequest,
    /// Do what was asked for.
    Act(ActionStep),
    /// Nothing is left to do.
    Finished(Result<LoopCtrl, String>),
}

#[verifier::ext_equal]
pub enum RoundView {
    Event { step: EventView, rest: Seq<i32> },
    TakeRequest,
    Act(StepView),
    Finished(Result<LoopCtrl, Seq<char>>),
}

impl View for RoundStep {
    type V = RoundView;

    open spec fn view(&self) -> RoundView {
        match self {
            RoundStep::Event { step, rest } => RoundView::Event { step: step@, rest: rest@ },
            RoundStep::TakeRequest => RoundView::TakeRequest,
            RoundStep::Act(step) => RoundView::Act(step@),
            RoundStep::Finished(r) => RoundView::Finished(told(*r)),
        }
    }
}

/// The first of the events `wds` is handled next. After the last comes a request.
pub open spec fn next_event_begun(s: Seq<EntryView>, wds: Seq<i32>) -> (
    Seq<EntryView>,
    RoundView,
) {
    if wds.len() == 0 {
        (s, RoundView::TakeRequest)
    } else {
        let (t, step) = event_begun(s, wds[0]);
        (t, RoundView::Event { step, rest: wds.drop_first() })
    }
}

/// A round begins with the events that were read. None yet is no failure.
pub open spec fn round_begun(s: Seq<EntryView>, read: EventsRead) -> (Seq<EntryView>, RoundView) {
    match read {
        EventsRead::Events(wds) => next_event_begun(s, wds@),
        EventsRead::WouldBlock => (s, RoundView::TakeRequest),
        EventsRead::Failed(e) => (s, RoundView::Finished(Err(e@))),
    }
}

/// A request is acted upon. Without one the round is over.
pub open spec fn request_begun(s: Seq<EntryView>, request: Option<ActionView>) -> (
    Seq<EntryView>,
    RoundView,
) {
    match request {
        Some(a) => {
            let (t, step) = action_begun(s, a);
            (t, RoundView::Act(step))
        },
        None => (s, RoundView::Finished(Ok(LoopCtrl::Continue))),
    }
}

/// What is said of an answer to the request `action` that could not be sent
/// because of `e`.
pub open spec fn answer_failure(e: Seq<char>, action: Seq<char>) -> Seq<char> {
    "Failed to send response "@ + e + " for "@ + action
}

/// How a round goes out once the answer to its request, shown as `action`, was sent
/// or not, if there is one.
pub open spec fn round_result(
    ending: Ending,
    sent: Result<(), Seq<char>>,
    action: Seq<char>,
) -> Result<LoopCtrl, Seq<char>> {
    match ending {
        Ending::Answer => match sent {
            Ok(()) => Ok(LoopCtrl::ContinuePersist),
            Err(e) => Err(answer_failure(e, action)),
        },
        Ending::Silent(ctrl) => Ok(ctrl),
    }
}

/// Goes on with the events of the watches `wds`.
pub fn next_event(records: &mut Records, mut wds: Vec<i32>) -> (round: RoundStep)
    requires
        old(records).wf(),
    ensures
        final(records).wf(),
        (final(records)@, round@) == next_event_begun(old(records)@, wds@),
{
    if wds.len() == 0 {
        RoundStep::TakeRequest
    } else {
        let ghost all = wds@;
        let wd: i32 = wds.remove(0);
        assert(wds@ =~= all.drop_first());
        let step = begin_event(records, wd);
        RoundStep::Event { step, rest: wds }
    }
}

/// Begins a round with what reading events gave.
pub fn begin_round(records: &mut Records, read: EventsRead) -> (round: RoundStep)
    requires
        old(records).wf(),
    ensures
        final(records).wf(),
        (final(records)@, round@) == round_begun(old(records)@, read),
{
    match read {
        EventsRead::Events(wds) => next_event(records, wds),
        EventsRead::WouldBlock => RoundStep::TakeRequest,
        EventsRead::Failed(e) => RoundStep::Finished(Err(e)),
    }
}

/// Goes on with the request that was there, if one was.
pub fn take_request(records: &mut Records, request: Option<&InotifyActions>) -> (round: RoundStep)
    requires
        old(records).wf(),
    ensures
        final(records).wf(),
        (final(records)@, round@) == request_begun(
            old(records)@,
            match request {
                Some(a) => Some(a@),
                None => None,
            },
        ),
{
    match request {
        Some(a) => RoundStep::Act(begin_action(records, a)),
        None => RoundStep::Finished(Ok(LoopCtrl::Continue)),
    }
}

impl Ending {
    /// Whether the results are sent to the one who asked.
    pub fn is_answered(self) -> (b: bool)
        ensures
            b == (self is Answer),
    {
        match self {
            Ending::Answer => true,
            Ending::Silent(_) => false,
        }
    }

    /// How the round goes out once the answer to the request, shown as `action`, was
    /// sent or not, if there is one.
    pub fn conclude(self, sent: Result<(), String>, action: &str) -> (r: Result<LoopCtrl, String>)
        ensures
            told(r) == round_result(self, told(sent), action@),
    {
        match self {
            Ending::Answer => match sent {
                Ok(()) => Ok(LoopCtrl::ContinuePersist),
                Err(e) => {
                    let mut t = "Failed to send response ".to_owned();
                    t.append(e.as_str());
                    t.append(" for ");
                    t.append(action);
                    Err(t)
                },
            },
            Ending::Silent(ctrl) => Ok(ctrl),
        }
    }
}

// Steps

/// The steps of an event are seen as what their fields are.
pub proof fn law_event_step_fields(u: EventUnwatch, q: EventQueue, w: EventWatch)
    ensures
        EventStep::Unwatch(u)@ == EventView::Unwatch(u.record@, u.watches),
        EventStep::Queue(q)@ == EventView::Queue(q.record@, q.from),
        EventStep::Watch(w)@ == EventView::Watch(w.record@, w.from),
        EventStep::Finished(Ok(()))@ == EventView::Finished(Ok(())),
        forall|e: String|
            EventStep::Finished(Err(e))@ == EventView::Finished(Err(#[trigger] e@)),
{
}

/// An event of a watch has the watch on the target stopped, then its record synced,
/// and then the target watched again, for all that a source is watched for. The watch
/// on the source stays the one that it is.
pub proof fn law_event_steps(
    u: EventUnwatch,
    id: i32,
    unwatched: EventStep,
    q: EventQueue,
    r: Record,
    queued: EventStep,
    w: EventWatch,
    request: WatchRequest,
)
    requires
        call_ensures(EventUnwatch::watch, (&u,), id),
        call_ensures(EventUnwatch::unwatched, (u, Ok::<(), String>(())), unwatched),
        call_ensures(EventQueue::record, (&q,), r),
        call_ensures(EventQueue::queued, (q,), queued),
        call_ensures(EventWatch::request, (&w,), request),
    ensures
        id == u.watches.to,
        unwatched matches EventStep::Queue(q2) && q2.record@ == u.record@ && q2.from
            == u.watches.from,
        r@ == q.record@,
        queued matches EventStep::Watch(w2) && w2.record@ == q.record@ && w2.from == q.from,
        request.path.text@ == w.record.src_dst.to.text@,
        request.mask == 0x0d02,
{
    law_masks();
}

/// If the watch of an event cannot be stopped, nothing is synced, and why is told.
pub proof fn law_event_stuck(u: EventUnwatch, e: String, step: EventStep)
    requires
        call_ensures(EventUnwatch::unwatched, (u, Err::<(), String>(e)), step),
    ensures
        step matches EventStep::Finished(Err(f)) && f@ == e@,
{
}

/// The steps of a request are seen as what their fields are.
pub proof fn law_action_step_fields(s: ActionStep)
    ensures
        s matches ActionStep::Copy(c) ==> s@ == StepView::Copy(c.record@),
        s matches ActionStep::Watch(WatchStep::Source(r)) ==> s@ == StepView::WatchSource(r@),
        s matches ActionStep::Watch(WatchStep::Target(r, from)) ==> s@ == StepView::WatchTarget(
            r@,
            from,
        ),
        s matches ActionStep::Unwatch(UnwatchStep::Source { entry, rest, done }) ==> {
            &&& s@ matches StepView::UnwatchSource { entry: e, rest: es, done: ds }
            &&& e == entry@ && seen_as(rest@, es) && ds.len() == done@.len()
            &&& forall|i: int| 0 <= i < ds.len() ==> #[trigger] ds[i] == done@[i]@
        },
        s matches ActionStep::Unwatch(UnwatchStep::Target { entry, rest, done, source }) ==> {
            &&& s@ matches StepView::UnwatchTarget { entry: e, rest: es, done: ds, source: o }
            &&& e == entry@ && seen_as(rest@, es) && ds.len() == done@.len() && o == told(source)
            &&& forall|i: int| 0 <= i < ds.len() ==> #[trigger] ds[i] == done@[i]@
        },
        s matches ActionStep::Finished { results, ending } ==> s@ == (StepView::Finished {
            results: results@,
            ending,
        }),
{
}

/// The entries `es` are seen as `vs`, one by one.
pub open spec fn seen_as(es: Seq<Entry>, vs: Seq<EntryView>) -> bool {
    es.len() == vs.len() && forall|i: int| 0 <= i < vs.len() ==> #[trigger] vs[i] == es[i]@
}

/// An addition copies its record, and then watches the source for all that a source is
/// watched for and the target for all that a new target is.
pub proof fn law_addition_steps(
    c: CopyStep,
    command: CommandLine,
    r: Record,
    source: WatchRequest,
    from: i32,
    target: WatchRequest,
)
    requires
        call_ensures(CopyStep::command, (&c,), command),
        call_ensures(WatchStep::request, (&WatchStep::Source(r),), source),
        call_ensures(WatchStep::request, (&WatchStep::Target(r, from),), target),
    ensures
        copies(command, c.record),
        source.path.text@ == r.src_dst.from.text@,
        source.mask == 0x0d02,
        target.path.text@ == r.src_dst.to.text@,
        target.mask == 0x0c02,
{
    law_masks();
    assert(command@.args.len() == command.args@.len());
    assert(command.args@[0]@ == command@.args[0]);
    assert(command.args@[1]@ == command@.args[1]);
    assert(command.args@[2]@ == command@.args[2]);
}

/// What a copy comes to in an addition: success leads on to the source of the same
/// record, and a failure ends it.
pub proof fn law_copied_step(c: CopyStep, status: Result<bool, String>, step: ActionStep)
    requires
        call_ensures(CopyStep::copied, (c, status), step),
    ensures
        status == Ok::<bool, String>(true) ==> step@ == StepView::WatchSource(c.record@),
        status != Ok::<bool, String>(true) ==> step matches ActionStep::Finished {
            results: InotifyResults::Add(Err(_)),
            ending: Ending::Answer,
        },
{
}

/// A deletion stops the watch on the source of an entry, and then the one on its
/// target.
pub proof fn law_deletion_steps(u: UnwatchStep, id: i32)
    requires
        call_ensures(UnwatchStep::watch, (&u,), id),
    ensures
        u matches UnwatchStep::Source { entry, .. } ==> id == entry.watches.from,
        u matches UnwatchStep::Target { entry, .. } ==> id == entry.watches.to,
{
}

/// What is answered about an entry names its two files, as they are written. It is a
/// success just if both watches were stopped, and tells otherwise of each of them what
/// became of it, the source first.
pub proof fn law_del_verdict(
    e: EntryView,
    source: Result<(), Seq<char>>,
    target: Result<(), Seq<char>>,
)
    ensures
        ({
            let v = del_verdict(e, source, target);
            &&& v is Succ <==> source is Ok && target is Ok
            &&& v matches SuccOrFailView::Succ(p) ==> p.from == e.record.src_dst.from && p.to
                == e.record.src_dst.to
            &&& v matches SuccOrFailView::Fail { filenames: p, error } ==> {
                &&& p.from == e.record.src_dst.from
                &&& p.to == e.record.src_dst.to
                &&& match (source, target) {
                    (Err(s), Err(t)) => error == "From "@ + ("Err("@ + s + ")"@) + ", To "@ + (
                    "Err("@ + t + ")"@),
                    (Err(s), Ok(())) => error == "From "@ + ("Err("@ + s + ")"@) + ", To "@
                        + "Ok(())"@,
                    (Ok(()), Err(t)) => error == "From "@ + "Ok(())"@ + ", To "@ + ("Err("@ + t
                        + ")"@),
                    (Ok(()), Ok(())) => false,
                }
            }
        }),
{
}

/// The steps of a round are seen as what their fields are.
pub proof fn law_round_step_fields(s: RoundStep)
    ensures
        s matches RoundStep::Event { step, rest } ==> s@ == (RoundView::Event {
            step: step@,
            rest: rest@,
        }),
        s is TakeRequest <==> s@ is TakeRequest,
        s matches RoundStep::Act(step) ==> s@ == RoundView::Act(step@),
        s matches RoundStep::Finished(Ok(c)) ==> s@ == RoundView::Finished(Ok(c)),
        s matches RoundStep::Finished(Err(e)) ==> s@ == RoundView::Finished(Err(e@)),
{
}

/// A round goes out as its request ends: with an answer that was sent the records are
/// to be stored; one that could not be sent is told, with why and of what request; and
/// without an answer the round says how to go on.
pub proof fn law_conclude(
    e: Ending,
    sent: Result<(), String>,
    action: &str,
    r: Result<LoopCtrl, String>,
    b: bool,
)
    requires
        call_ensures(Ending::conclude, (e, sent, action), r),
        call_ensures(Ending::is_answered, (e,), b),
    ensures
        b <==> e is Answer,
        b && sent is Ok ==> r == Ok::<LoopCtrl, String>(LoopCtrl::ContinuePersist),
        b && sent is Err ==> r is Err && r->Err_0@ == "Failed to send response "@ + sent->Err_0@
            + " for "@ + action@,
        e matches Ending::Silent(c) ==> r == Ok::<LoopCtrl, String>(c),
{
}

/// An event of the watch `wd` begins with the first entry that has `wd` itself on its
/// source or on its target. That goes out of force, and all others stay.
pub proof fn law_begin_event(records: &mut Records, wd: i32, step: EventStep)
    requires
        call_ensures(begin_event, (records, wd), step),
    ensures
        step is Finished <==> forall|j: int|
            0 <= j < old(records)@.len() ==> (#[trigger] old(records)@[j]).watches.from != wd
                && old(records)@[j].watches.to != wd,
        step is Finished ==> final(records)@ == old(records)@ && step->Finished_0 is Ok,
        step is Finished || step is Unwatch,
        step matches EventStep::Unwatch(u) ==> exists|i: int|
            {
                &&& 0 <= i < old(records)@.len()
                &&& u.record@ == (#[trigger] old(records)@[i]).record
                &&& u.watches == old(records)@[i].watches
                &&& u.watches.from == wd || u.watches.to == wd
                &&& final(records)@ == old(records)@.remove(i)
                &&& forall|j: int|
                    0 <= j < i ==> (#[trigger] old(records)@[j]).watches.from != wd
                        && old(records)@[j].watches.to != wd
            },
{
    let i = first_where(old(records)@, watched(wd));
    law_first_watched(old(records)@, wd);
    if step is Unwatch {
        assert(step->Unwatch_0.record@ == old(records)@[i].record);
    }
}

/// With the target of an event's record watched again, the record is in force again with
/// the watch on its source and the new one. If that fails, it stays out of force.
pub proof fn law_event_watched(
    w: EventWatch,
    records: &mut Records,
    outcome: Result<i32, String>,
    step: EventStep,
)
    requires
        old(records).wf(),
        call_ensures(EventWatch::watched, (w, records, outcome), step),
    ensures
        step is Finished,
        outcome matches Err(e) ==> final(records)@ == old(records)@ && step->Finished_0 is Err
            && step->Finished_0->Err_0@ == e@,
        outcome is Ok ==> step->Finished_0 is Ok,
        outcome is Ok && (forall|i: int|
            0 <= i < old(records)@.len() ==> !same_record(
                (#[trigger] old(records)@[i]).record,
                w.record@,
            )) ==> final(records)@ == old(records)@.push(
            EntryView {
                record: w.record@,
                watches: FromTo { from: w.from, to: outcome->Ok_0 },
            },
        ),
{
    if outcome is Ok {
        law_put_entries(
            old(records)@,
            w.record@,
            FromTo { from: w.from, to: outcome->Ok_0 },
        );
    }
}

/// With its source watched, an addition goes on to the target of the same record, and
/// nothing changes. With the target watched too, the record is put in force with the
/// two watches. A watch that fails changes nothing, and is the answer.
pub proof fn law_watched_step(
    w: WatchStep,
    records: &mut Records,
    outcome: Result<i32, String>,
    step: ActionStep,
)
    requires
        call_ensures(WatchStep::watched, (w, records, outcome), step),
    ensures
        w is Source || outcome is Err ==> final(records)@ == old(records)@,
        outcome matches Err(e) ==> step@ == (StepView::Finished {
            results: ResultsView::Add(Err(e@)),
            ending: Ending::Answer,
        }),
        outcome is Ok && w is Source ==> step@ == StepView::WatchTarget(
            w->Source_0@,
            outcome->Ok_0,
        ),
        outcome is Ok && w is Target ==> {
            &&& step@ == (StepView::Finished {
                results: ResultsView::Add(Ok(())),
                ending: Ending::Answer,
            })
            &&& final(records)@ == put(
                old(records)@,
                w->Target_0@,
                FromTo { from: w->Target_1, to: outcome->Ok_0 },
            )
        },
{
}

/// With the watch on the source of an entry dealt with, the one on the target is next,
/// and nothing changes. With both, the entry is put back in force as it was unless both
/// were stopped, the answer about it is added, and the next entry follows.
pub proof fn law_unwatched_step(
    u: UnwatchStep,
    records: &mut Records,
    outcome: Result<(), String>,
    step: ActionStep,
)
    requires
        call_ensures(UnwatchStep::unwatched, (u, records, outcome), step),
    ensures
        u matches UnwatchStep::Source { entry, rest, done } ==> {
            &&& final(records)@ == old(records)@
            &&& step@ == (StepView::UnwatchTarget {
                entry: entry@,
                rest: rest.deep_view(),
                done: done.deep_view(),
                source: told(outcome),
            })
        },
        u matches UnwatchStep::Target { entry, rest, done, source } ==> {
            &&& source is Ok && outcome is Ok ==> final(records)@ == old(records)@
            &&& source is Err || outcome is Err ==> final(records)@ == put(
                old(records)@,
                entry.record@,
                entry.watches,
            )
            &&& step@ == del_next(
                rest.deep_view(),
                done.deep_view().push(del_verdict(entry@, told(source), told(outcome))),
            )
        },
{
}

/// A deletion goes on with the first of the entries that are left, and ends with what
/// was said of all when none is.
pub proof fn law_del_next(rest: Seq<EntryView>, done: Seq<SuccOrFailView>)
    ensures
        rest.len() == 0 ==> del_next(rest, done) == (StepView::Finished {
            results: ResultsView::Del(Ok(done)),
            ending: Ending::Answer,
        }),
        rest.len() > 0 ==> del_next(rest, done) == (StepView::UnwatchSource {
            entry: rest[0],
            rest: rest.skip(1),
            done,
        }),
{
    assert(rest.len() > 0 ==> rest.drop_first() =~= rest.skip(1));
}

/// What a request begins with: an addition with the copy of its record, and nothing
/// changes; a deletion with the first entry that it names, and all that it names go out
/// of force; a list and a stop end at once, and nothing changes.
pub proof fn law_begin_action(records: &mut Records, action: InotifyActions, step: ActionStep)
    requires
        call_ensures(begin_action, (records, &action), step),
    ensures
        action !is Del ==> final(records)@ == old(records)@,
        action matches InotifyActions::Add(r) ==> step@ == StepView::Copy(r@),
        action is List ==> step@ == (StepView::Finished {
            results: ResultsView::List(records_of(old(records)@)),
            ending: Ending::Silent(LoopCtrl::Continue),
        }),
        action is Stop ==> step matches ActionStep::Finished {
            results: InotifyResults::List(_),
            ending: Ending::Silent(LoopCtrl::Break),
        },
        action matches InotifyActions::Del(wanted, me) ==> {
            let w = wanted.deep_view();
            let es = old(records)@.filter(|e: EntryView| named(e, w, me));
            &&& final(records)@ == old(records)@.filter(
                |e: EntryView| !named(e, w, me),
            )
            &&& step@ == del_next(es, Seq::empty())
        },
{
    if let InotifyActions::Del(wanted, me) = action {
        law_selects_named(old(records)@, wanted.deep_view(), me);
    }
}

/// The first of the events that are left is handled next, and after the last a request
/// is looked for.
pub proof fn law_next_event(records: &mut Records, wds: Vec<i32>, round: RoundStep)
    requires
        call_ensures(next_event, (records, wds), round),
    ensures
        wds@.len() == 0 ==> round is TakeRequest && final(records)@ == old(records)@,
        wds@.len() > 0 ==> round is Event && round->rest@ == wds@.skip(1) && (
            final(records)@,
            round->step@,
        ) == event_begun(old(records)@, wds@[0]),
{
    assert(wds@.len() > 0 ==> wds@.drop_first() =~= wds@.skip(1));
}

/// A round begins with the events that were read, with a request if there are none yet,
/// and is over if they could not be read, which is told.
pub proof fn law_begin_round(records: &mut Records, read: EventsRead, round: RoundStep)
    requires
        call_ensures(begin_round, (records, read), round),
    ensures
        read matches EventsRead::Failed(e) ==> round is Finished && round->Finished_0 is Err
            && round->Finished_0->Err_0@ == e@ && final(records)@ == old(records)@,
        read is WouldBlock ==> round is TakeRequest && final(records)@ == old(records)@,
        read matches EventsRead::Events(wds) ==> (final(records)@, round@) == next_event_begun(
            old(records)@,
            wds@,
        ),
{
}

/// A request that was there is begun, whatever it is. Without one the round is over, and
/// nothing changes.
pub proof fn law_take_request(
    records: &mut Records,
    request: Option<&InotifyActions>,
    round: RoundStep,
)
    requires
        call_ensures(take_request, (records, request), round),
    ensures
        request is None ==> round matches RoundStep::Finished(Ok(LoopCtrl::Continue)),
        request is None ==> final(records)@ == old(records)@,
        request matches Some(a) ==> round matches RoundStep::Act(step) && (
            final(records)@,
            step@,
        ) == action_begun(old(records)@, a@),
{
}

} // verus!
