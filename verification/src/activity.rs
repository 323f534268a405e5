//! In-memory activity log: a bounded buffer of structured events that the
//! admin web UI polls.

use std::collections::VecDeque;

use vstd::prelude::*;

use crate::clock;
use crate::text;

verus! {

/// How many events the log keeps.
pub const CAPACITY: usize = 1000;

/// How serious an event is.
#[derive(Debug, Clone, Copy, PartialEq, Eq, Structural)]
pub enum Level {
    Info,
    Warn,
    Error,
}

/// One entry of the log.
#[derive(Debug)]
pub struct Event {
    /// Monotonic sequence number (also used by the UI to de-duplicate).
    pub seq: u64,
    /// RFC 3339 timestamp.
    pub ts: String,
    pub level: Level,
    /// Originating device name, if any.
    pub device: Option<String>,
    pub message: String,
}

/// What an event says.
#[verifier::ext_equal]
pub struct EventView {
    pub seq: u64,
    pub ts: Seq<char>,
    pub level: Level,
    pub device: Option<Seq<char>>,
    pub message: Seq<char>,
}

impl View for Event {
    type V = EventView;

    open spec fn view(&self) -> EventView {
        EventView {
            seq: self.seq,
            ts: self.ts@,
            level: self.level,
            device: text::opt_text(self.device),
            message: self.message@,
        }
    }
}

impl Clone for Event {
    fn clone(&self) -> (copy: Event)
        ensures
            copy@ == self@,
    {
        Event {
            seq: self.seq,
            ts: self.ts.clone(),
            level: self.level,
            device: text::clone_opt(&self.device),
            message: self.message.clone(),
        }
    }
}

/// What is to be logged: an event before it has a number and a time.
#[derive(Debug)]
pub struct Notice {
    pub level: Level,
    pub device: Option<String>,
    pub message: String,
}

impl Clone for Notice {
    fn clone(&self) -> (copy: Notice)
        ensures
            copy@ == self@,
    {
        Notice {
            level: self.level,
            device: text::clone_opt(&self.device),
            message: self.message.clone(),
        }
    }
}

/// What a notice says.
#[verifier::ext_equal]
pub struct NoticeView {
    pub level: Level,
    pub device: Option<Seq<char>>,
    pub message: Seq<char>,
}

impl View for Notice {
    type V = NoticeView;

    open spec fn view(&self) -> NoticeView {
        NoticeView {
            level: self.level,
            device: text::opt_text(self.device),
            message: self.message@,
        }
    }
}

/// The log after one more event: the oldest one makes room where it is full.
pub open spec fn recorded(events: Seq<EventView>, event: EventView) -> Seq<EventView> {
    if events.len() >= CAPACITY {
        events.drop_first().push(event)
    } else {
        events.push(event)
    }
}

/// The log after all of `history`, from an empty one.
pub open spec fn replayed(history: Seq<EventView>) -> Seq<EventView>
    decreases history.len(),
{
    if history.len() == 0 {
        Seq::empty()
    } else {
        recorded(replayed(history.drop_last()), history.last())
    }
}

/// The state of a log.
#[verifier::ext_equal]
pub struct ActivityView {
    /// The events kept, oldest first.
    pub events: Seq<EventView>,
    /// The number of the next event.
    pub next_seq: u64,
}

impl ActivityView {
    /// The log is within its capacity, and its events are numbered one by one
    /// up to the last number given out.
    pub open spec fn wf(self) -> bool {
        &&& self.events.len() <= CAPACITY
        &&& self.events.len() < self.next_seq
        &&& forall|i: int|
            0 <= i < self.events.len() ==> (#[trigger] self.events[i]).seq == self.next_seq
                - self.events.len() + i
    }

    /// The log after `notice` was logged at `ts`.
    pub open spec fn logged(self, ts: Seq<char>, notice: NoticeView) -> ActivityView {
        ActivityView {
            events: recorded(
                self.events,
                EventView {
                    seq: self.next_seq,
                    ts,
                    level: notice.level,
                    device: notice.device,
                    message: notice.message,
                },
            ),
            next_seq: (self.next_seq + 1) as u64,
        }
    }
}

/// The activity log.
pub struct Activity {
    events: VecDeque<Event>,
    next_seq: u64,
}

impl View for Activity {
    type V = ActivityView;

    closed spec fn view(&self) -> ActivityView {
        ActivityView {
            events: self.events@.map_values(|e: Event| e@),
            next_seq: self.next_seq,
        }
    }
}

impl Activity {
    /// An empty log.
    pub fn new() -> (log: Activity)
        ensures
            log@ == (ActivityView { events: Seq::empty(), next_seq: 1 }),
            log@.wf(),
    {
        let log = Activity { events: VecDeque::with_capacity(CAPACITY), next_seq: 1 };
        assert(log@.events == Seq::<EventView>::empty());
        log
    }

    /// Whether there is a sequence number left for another event.
    pub fn has_room(&self) -> (room: bool)
        ensures
            room == (self@.next_seq < u64::MAX),
    {
        self.next_seq < u64::MAX
    }

    /// Logs an event that happened at `ts`.
    pub fn push_at(&mut self, ts: String, notice: Notice)
        requires
            old(self)@.wf(),
            old(self)@.next_seq < u64::MAX,
        ensures
            final(self)@ == old(self)@.logged(ts@, notice@),
            final(self)@.wf(),
    {
        let ghost before = self@;
        let seq = self.next_seq;
        self.next_seq = self.next_seq + 1;
        if self.events.len() == CAPACITY {
            self.events.pop_front();
        }
        assert(self@.events == (if before.events.len() == CAPACITY {
            before.events.drop_first()
        } else {
            before.events
        }));
        self.events.push_back(
            Event {
                seq,
                ts,
                level: notice.level,
                device: notice.device,
                message: notice.message,
            },
        );
        assert(self@.events == before.logged(ts@, notice@).events);
    }

    /// Logs an event that happens now.
    pub fn push(&mut self, notice: Notice)
        requires
            old(self)@.wf(),
            old(self)@.next_seq < u64::MAX,
        ensures
            exists|ts: Seq<char>|
                clock::is_stamp(ts) && final(self)@ == #[trigger] old(self)@.logged(ts, notice@),
            final(self)@.wf(),
    {
        let ts = clock::now_rfc3339();
        self.push_at(ts, notice);
    }

    /// Logs `message` for information.
    pub fn info(&mut self, device: Option<&str>, message: &str)
        requires
            old(self)@.wf(),
            old(self)@.next_seq < u64::MAX,
        ensures
            exists|ts: Seq<char>|
                clock::is_stamp(ts) && final(self)@ == #[trigger] old(self)@.logged(
                    ts,
                    plain_notice(Level::Info, device, message@),
                ),
            final(self)@.wf(),
    {
        self.push(notice(Level::Info, device, message));
    }

    /// Logs `message` as a warning.
    pub fn warn(&mut self, device: Option<&str>, message: &str)
        requires
            old(self)@.wf(),
            old(self)@.next_seq < u64::MAX,
        ensures
            exists|ts: Seq<char>|
                clock::is_stamp(ts) && final(self)@ == #[trigger] old(self)@.logged(
                    ts,
                    plain_notice(Level::Warn, device, message@),
                ),
            final(self)@.wf(),
    {
        self.push(notice(Level::Warn, device, message));
    }

    /// Logs `message` as an error.
    pub fn error(&mut self, device: Option<&str>, message: &str)
        requires
            old(self)@.wf(),
            old(self)@.next_seq < u64::MAX,
        ensures
            exists|ts: Seq<char>|
                clock::is_stamp(ts) && final(self)@ == #[trigger] old(self)@.logged(
                    ts,
                    plain_notice(Level::Error, device, message@),
                ),
            final(self)@.wf(),
    {
        self.push(notice(Level::Error, device, message));
    }

    /// Up to `limit` of the most recent events, oldest first.
    pub fn recent(&self, limit: usize) -> (events: Vec<Event>)
        ensures
            events@.map_values(|e: Event| e@) == latest(self@.events, limit as nat),
    {
        let len = self.events.len();
        let start: usize = if limit < len {
            len - limit
        } else {
            0
        };
        let mut events: Vec<Event> = Vec::new();
        let mut i: usize = start;
        while i < len
            invariant
                start <= i <= len,
                len == self.events@.len(),
                events@.len() == i - start,
                forall|j: int|
                    0 <= j < events@.len() ==> (#[trigger] events@[j])@ == self.events@[start + j]@,
            decreases len - i,
        {
            let copy = self.events[i].clone();
            events.push(copy);
            i = i + 1;
        }
        assert(events@.map_values(|e: Event| e@) == latest(self@.events, limit as nat));
        events
    }
}

impl Default for Activity {
    fn default() -> (log: Activity)
        ensures
            log@ == (ActivityView { events: Seq::empty(), next_seq: 1 }),
            log@.wf(),
    {
        Activity::new()
    }
}

/// The last `limit` of `events`, or all of them where there are fewer.
pub open spec fn latest(events: Seq<EventView>, limit: nat) -> Seq<EventView> {
    if limit < events.len() {
        events.skip(events.len() - limit)
    } else {
        events
    }
}

/// What `notice` says.
pub open spec fn plain_notice(
    level: Level,
    device: Option<&str>,
    message: Seq<char>,
) -> NoticeView {
    NoticeView {
        level,
        device: match device {
            Some(d) => Some(d@),
            None => None,
        },
        message,
    }
}

/// A notice of `level` about `device`.
pub fn notice(level: Level, device: Option<&str>, message: &str) -> (n: Notice)
    ensures
        n@ == plain_notice(level, device, message@),
{
    Notice {
        level,
        device: match device {
            Some(d) => Some(d.to_owned()),
            None => None,
        },
        message: message.to_owned(),
    }
}

// --- Laws ---

/// However much is logged, the log holds the most recent events in the order
/// in which they came, as many as its capacity.
pub proof fn law_log_keeps_the_latest(history: Seq<EventView>)
    ensures
        replayed(history) == latest(history, CAPACITY as nat),
    decreases history.len(),
{
    if history.len() > 0 {
        law_log_keeps_the_latest(history.drop_last());
    }
    assert(replayed(history) =~= latest(history, CAPACITY as nat));
}

/// Logging keeps the log well formed.
pub proof fn law_logging_keeps_the_log_well_formed(
    log: ActivityView,
    ts: Seq<char>,
    notice: NoticeView,
)
    requires
        log.wf(),
        log.next_seq < u64::MAX,
    ensures
        log.logged(ts, notice).wf(),
{
}

/// Sequence numbers strictly increase, so that no two events share one.
pub proof fn law_sequence_numbers_increase(log: ActivityView, i: int, j: int)
    requires
        log.wf(),
        0 <= i < j < log.events.len(),
    ensures
        log.events[i].seq < log.events[j].seq,
{
}

/// An event logged later has a greater number than everything logged before.
pub proof fn law_new_event_has_the_greatest_number(
    log: ActivityView,
    ts: Seq<char>,
    notice: NoticeView,
    i: int,
)
    requires
        log.wf(),
        log.next_seq < u64::MAX,
        0 <= i < log.events.len(),
    ensures
        log.events[i].seq < log.logged(ts, notice).events.last().seq,
{
}

/// A logged event says what was to be logged, under the next number and at its
/// time, and comes last; the events before it stay as they are and in order,
/// but for the oldest where there was no room.
pub proof fn law_event_says_what_was_logged(
    log: ActivityView,
    ts: Seq<char>,
    notice: NoticeView,
)
    requires
        log.wf(),
        log.next_seq < u64::MAX,
    ensures
        ({
            let after = log.logged(ts, notice);
            let event = after.events.last();
            &&& after.next_seq == log.next_seq + 1
            &&& after.events.len() > 0
            &&& event.seq == log.next_seq
            &&& event.ts == ts
            &&& event.level == notice.level
            &&& event.device == notice.device
            &&& event.message == notice.message
            &&& log.events.len() < 1000 ==> after.events.drop_last() == log.events
            &&& log.events.len() == 1000 ==> after.events.drop_last() == log.events.skip(1)
        }),
{
    let after = log.logged(ts, notice);
    if log.events.len() < 1000 {
        assert(after.events.drop_last() == log.events);
    } else {
        assert(after.events.drop_last() == log.events.skip(1));
    }
}

/// The most recent events are the last ones, in their order: as many as asked
/// for, or all where there are no more.
pub proof fn law_latest_are_the_last(events: Seq<EventView>, limit: nat)
    ensures
        latest(events, limit).len() <= limit,
        latest(events, limit).len() == limit || latest(events, limit) == events,
        latest(events, limit).len() <= events.len(),
        forall|i: int|
            0 <= i < latest(events, limit).len() ==> #[trigger] latest(events, limit)[i]
                == events[events.len() - latest(events, limit).len() + i],
{
}

/// A notice says what it is given to say.
pub proof fn law_notices_say_what_they_are_given(
    level: Level,
    device: Option<&str>,
    message: Seq<char>,
)
    ensures
        plain_notice(level, device, message).level == level,
        plain_notice(level, device, message).message == message,
        device matches Some(d) ==> plain_notice(level, device, message).device == Some(d@),
        device is None ==> plain_notice(level, device, message).device is None,
{
}

} // verus!
