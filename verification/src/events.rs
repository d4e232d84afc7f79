//! The event protocol: every running operation reports through an ordered
//! sequence of named events — one progress event per output line, then
//! exactly one terminal event — delivered to an observer sink.

use vstd::prelude::*;
use vstd::string::StringExecFns;
use crate::text::dec_rep;
use crate::text::push_decimal;

verus! {

/// Milliseconds between two synthetic progress events of a simulated scan.
pub const SIMULATED_STEP_MILLIS: u64 = 400;

/// How a remote file fetch ended: the process ran (with its exit code, if
/// any), or it could not be run at all.
#[derive(Debug, Clone, PartialEq, Eq)]
pub enum FetchOutcome {
    Completed { code: Option<i32> },
    Failed { message: String },
}

/// One event of the protocol. The names and payload shapes are part of the
/// contract with the observer.
#[derive(Debug, Clone, PartialEq, Eq)]
pub enum Event {
    /// One line of scan output, in arrival order.
    ScanProgress { line: String },
    /// The single terminal event of a scan: its exit status description, or
    /// a marker that it could not be launched.
    ScanComplete { status: String },
    /// The whole content of a fetched remote file.
    RemoteFileContent { path: String, content: String },
    /// The single terminal event of a fetch.
    RemoteFileComplete { outcome: FetchOutcome },
}

impl Event {
    /// The wire name under which this event is emitted.
    pub fn name(&self) -> (r: &'static str)
        ensures
            *self matches Event::ScanProgress { .. } ==> r@ == "scan-progress"@,
            *self matches Event::ScanComplete { .. } ==> r@ == "scan-complete"@,
            *self matches Event::RemoteFileContent { .. } ==> r@ == "remote-file-content"@,
            *self matches Event::RemoteFileComplete { .. } ==> r@ == "remote-file-complete"@,
    {
        match self {
            Event::ScanProgress { .. } => "scan-progress",
            Event::ScanComplete { .. } => "scan-complete",
            Event::RemoteFileContent { .. } => "remote-file-content",
            Event::RemoteFileComplete { .. } => "remote-file-complete",
        }
    }
}

/// Where events go: the observer's side of the protocol. The one shipped
/// implementation records; the application wires a live channel in.
pub trait EventSink {
    /// Everything emitted so far, in order.
    spec fn sunk(&self) -> Seq<Event>;

    /// Delivers one event: fire-and-forget, the event is appended to the
    /// stream as seen by the observer.
    fn emit(&mut self, e: Event)
        ensures
            final(self).sunk() == old(self).sunk().push(e),
    ;
}

/// A sink that keeps the events it is given: the registry of record for
/// tests and for any caller that collects a stream.
pub struct RecordingSink {
    events: Vec<Event>,
}

impl RecordingSink {
    /// An empty sink.
    pub fn new() -> (s: Self)
        ensures
            s.sunk() == Seq::<Event>::empty(),
    {
        RecordingSink { events: Vec::new() }
    }

    /// The recorded stream.
    pub fn events(&self) -> (r: &Vec<Event>)
        ensures
            r@ == self.sunk(),
    {
        &self.events
    }

    /// Hands the recorded stream back, consuming the sink.
    pub fn into_events(self) -> (r: Vec<Event>)
        ensures
            r@ == self.sunk(),
    {
        self.events
    }
}

impl EventSink for RecordingSink {
    closed spec fn sunk(&self) -> Seq<Event> {
        self.events@
    }

    fn emit(&mut self, e: Event) {
        self.events.push(e);
    }
}

/// Emits a whole sequence of events, in order.
pub fn emit_all<S: EventSink>(sink: &mut S, events: Vec<Event>)
    ensures
        final(sink).sunk() == old(sink).sunk() + events@,
{
    let ghost all = events@;
    let mut rest = events;
    while rest.len() > 0
        invariant
            rest@.len() <= all.len(),
            rest@ == all.skip(all.len() - rest@.len()),
            sink.sunk() == old(sink).sunk() + all.subrange(0, all.len() - rest@.len()),
        decreases rest@.len(),
    {
        let ghost done = all.len() - rest@.len();
        let e = rest.remove(0);
        proof {
            assert(e == all[done as int]);
            assert(rest@ =~= all.skip(all.len() - rest@.len()));
            assert((old(sink).sunk() + all.subrange(0, done as int)).push(e) =~= old(
                sink,
            ).sunk() + all.subrange(0, done + 1));
        }
        sink.emit(e);
    }
    proof {
        assert(all.subrange(0, all.len() as int) =~= all);
    }
}

/// The line of the `i`-th synthetic progress event of a simulated scan.
pub open spec fn simulated_line(i: int) -> Seq<char> {
    "simulated progress "@ + dec_rep(i as nat) + "/5"@
}

/// The event sequence of a simulated scan: exactly five progress events,
/// `simulated progress 1/5` through `simulated progress 5/5` in order, then
/// exactly one terminal event with status `simulated`. This is what a local
/// scan emits when no command template is configured.
pub fn simulated_scan_events() -> (events: Vec<Event>)
    ensures
        events@.len() == 6,
        forall|i: int|
            0 <= i < 5 ==> ((#[trigger] events@[i]) matches Event::ScanProgress { line }
                && line@ == simulated_line(i + 1)),
        events@[5] matches Event::ScanComplete { status } && status@ == "simulated"@,
{
    let mut events: Vec<Event> = Vec::new();
    let mut i: u16 = 1;
    while i <= 5
        invariant
            1 <= i <= 6,
            events@.len() == i - 1,
            forall|j: int|
                0 <= j < i - 1 ==> ((#[trigger] events@[j]) matches Event::ScanProgress {
                    line,
                } && line@ == simulated_line(j + 1)),
        decreases 6 - i,
    {
        let mut line = String::new();
        line.append("simulated progress ");
        push_decimal(&mut line, i);
        line.append("/5");
        events.push(Event::ScanProgress { line });
        i += 1;
    }
    events.push(Event::ScanComplete { status: "simulated".to_owned() });
    events
}

/// The event sequence of a scan that produced `lines` and ended with
/// `status`: one progress event per line, in order, then exactly one
/// terminal event.
pub fn scan_stream_events(lines: Vec<String>, status: String) -> (events: Vec<Event>)
    ensures
        events@.len() == lines@.len() + 1,
        forall|i: int|
            0 <= i < lines@.len() ==> ((#[trigger] events@[i]) matches Event::ScanProgress {
                line,
            } && line@ == lines@[i]@),
        events@[lines@.len() as int] matches Event::ScanComplete { status: s } && s@
            == status@,
{
    let ghost all = lines@;
    let mut events: Vec<Event> = Vec::new();
    let mut rest = lines;
    while rest.len() > 0
        invariant
            rest@.len() <= all.len(),
            rest@ == all.skip(all.len() - rest@.len()),
            events@.len() == all.len() - rest@.len(),
            forall|i: int|
                0 <= i < events@.len() ==> ((#[trigger] events@[i]) matches Event::ScanProgress {
                    line,
                } && line@ == all[i]@),
        decreases rest@.len(),
    {
        let ghost done = all.len() - rest@.len();
        let l = rest.remove(0);
        proof {
            assert(l == all[done as int]);
            assert(rest@ =~= all.skip(all.len() - rest@.len()));
        }
        events.push(Event::ScanProgress { line: l });
    }
    events.push(Event::ScanComplete { status });
    events
}

/// The event sequence of a scan whose command could not be launched: no
/// progress events, exactly one terminal event with the launch-failure
/// marker.
pub fn scan_launch_failure_events() -> (events: Vec<Event>)
    ensures
        events@.len() == 1,
        events@[0] matches Event::ScanComplete { status } && status@ == "failed to launch"@,
{
    let mut events: Vec<Event> = Vec::new();
    events.push(Event::ScanComplete { status: "failed to launch".to_owned() });
    events
}

/// As `scan_launch_failure_events`, for the SSH-wrapped remote scan.
pub fn ssh_scan_launch_failure_events() -> (events: Vec<Event>)
    ensures
        events@.len() == 1,
        events@[0] matches Event::ScanComplete { status } && status@
            == "failed to launch ssh"@,
{
    let mut events: Vec<Event> = Vec::new();
    events.push(Event::ScanComplete { status: "failed to launch ssh".to_owned() });
    events
}

/// The event sequence of a completed remote file fetch: the whole content
/// once, then exactly one terminal event with the process's exit code.
pub fn fetch_success_events(path: String, content: String, code: Option<i32>) -> (events: Vec<Event>)
    ensures
        events@.len() == 2,
        events@[0] matches Event::RemoteFileContent { path: p, content: c } && p@ == path@
            && c@ == content@,
        events@[1] matches Event::RemoteFileComplete { outcome } && outcome == (
        FetchOutcome::Completed { code }),
{
    let mut events: Vec<Event> = Vec::new();
    events.push(Event::RemoteFileContent { path, content });
    events.push(Event::RemoteFileComplete { outcome: FetchOutcome::Completed { code } });
    events
}

/// The event sequence of a fetch whose command could not be run: no content
/// event, exactly one terminal event carrying the error text.
pub fn fetch_failure_events(message: String) -> (events: Vec<Event>)
    ensures
        events@.len() == 1,
        events@[0] matches Event::RemoteFileComplete { outcome } && outcome
            matches FetchOutcome::Failed { message: m } && m@ == message@,
{
    let mut events: Vec<Event> = Vec::new();
    events.push(Event::RemoteFileComplete { outcome: FetchOutcome::Failed { message } });
    events
}

} // verus!
