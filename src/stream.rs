//! One keyword's stream task: its append-only score series and the state
//! machine that turns what its feed subscription yields into entries.
//!
//! The task does no I/O. Its driver opens the subscription, polls it and
//! hands each outcome to the task, which says what to do next.
use vstd::prelude::*;

verus! {

/// A score stamped with the time at which it was recorded, in units of the
/// driver's clock.
#[derive(Clone, Copy, Debug)]
pub struct TimestampedScore<S> {
    pub score: S,
    pub timestamp: u64,
}

/// Timestamps of `s` never decrease from one entry to the next.
pub open spec fn ordered<S>(s: Seq<TimestampedScore<S>>) -> bool {
    forall|i: int, j: int| 0 <= i <= j < s.len() ==> #[trigger] s[i].timestamp <= #[trigger] s[j].timestamp
}

/// The timestamp that an entry recorded at `now` gets after `s`: `now`, or
/// the last timestamp of `s` where the clock has gone back.
pub open spec fn next_stamp<S>(s: Seq<TimestampedScore<S>>, now: u64) -> u64 {
    if s.len() > 0 && s.last().timestamp > now {
        s.last().timestamp
    } else {
        now
    }
}

/// Appending an entry stamped by `next_stamp` to an ordered sequence leaves
/// it ordered, with the old entries first and in their places.
pub proof fn lemma_append_keeps_order<S>(s: Seq<TimestampedScore<S>>, score: S, now: u64)
    requires
        ordered(s),
    ensures
        ordered(s.push(TimestampedScore { score, timestamp: next_stamp(s, now) })),
        s.push(TimestampedScore { score, timestamp: next_stamp(s, now) }).drop_last() == s,
{
    let t = s.push(TimestampedScore { score, timestamp: next_stamp(s, now) });
    assert(t.drop_last() =~= s);
}

/// An ordered, append-only sequence of timestamped scores.
#[derive(Debug)]
pub struct ScoreSeries<S> {
    entries: Vec<TimestampedScore<S>>,
}

impl<S> View for ScoreSeries<S> {
    type V = Seq<TimestampedScore<S>>;

    closed spec fn view(&self) -> Seq<TimestampedScore<S>> {
        self.entries@
    }
}

impl<S> ScoreSeries<S> {
    /// The series is in non-decreasing timestamp order.
    pub open spec fn wf(&self) -> bool {
        ordered(self@)
    }

    /// An empty series.
    pub fn new() -> (r: Self)
        ensures
            r@ == Seq::<TimestampedScore<S>>::empty(),
            r.wf(),
    {
        ScoreSeries { entries: Vec::new() }
    }

    /// Number of entries.
    pub fn len(&self) -> (r: usize)
        ensures
            r == self@.len(),
    {
        self.entries.len()
    }

    /// The entry at position `i`.
    pub fn get(&self, i: usize) -> (r: &TimestampedScore<S>)
        requires
            i < self@.len(),
        ensures
            *r == self@[i as int],
    {
        &self.entries[i]
    }

    /// Append `score`, recorded at `now`. Its timestamp is `now`, or the last
    /// timestamp of the series where the clock has gone back, so that the
    /// series stays ordered.
    pub fn append(&mut self, score: S, now: u64)
        requires
            old(self).wf(),
        ensures
            final(self).wf(),
            final(self)@ == old(self)@.push(
                TimestampedScore { score, timestamp: next_stamp(old(self)@, now) },
            ),
    {
        let n: usize = self.entries.len();
        let mut stamp: u64 = now;
        if n > 0 && self.entries[n - 1].timestamp > now {
            stamp = self.entries[n - 1].timestamp;
        }
        proof {
            lemma_append_keeps_order(self.entries@, score, now);
        }
        self.entries.push(TimestampedScore { score, timestamp: stamp });
    }
}

/// Why a task failed.
#[derive(Clone, Debug)]
pub enum FailureCause {
    /// The subscription could not be opened, or it broke.
    Subscription(String),
    /// The task was cancelled.
    Cancelled,
}

/// The life of a stream task.
#[derive(Clone, Debug)]
pub enum TaskState {
    Created,
    Subscribing,
    Streaming,
    Completed,
    Failed(FailureCause),
}

impl TaskState {
    /// Completed or failed: nothing more happens to the task.
    pub open spec fn is_terminal(&self) -> bool {
        self is Completed || self is Failed
    }

    /// The task holds (or is opening) a subscription handle.
    pub open spec fn holds_subscription(&self) -> bool {
        self is Subscribing || self is Streaming
    }
}

/// A message of the feed.
#[derive(Clone, Debug)]
pub enum FeedMessage {
    /// Content with text that can be scored.
    Text(String),
    /// Anything else (a control message): not analyzable.
    Other,
}

/// What one poll of a subscription gave.
#[derive(Clone, Debug)]
pub enum PollOutcome {
    Item(FeedMessage),
    Pending,
    EndOfStream,
    Error(String),
}

/// What the driver of a task is to do next.
#[derive(Clone, Copy, Debug, PartialEq, Eq, Structural)]
pub enum TaskAction {
    /// Open the feed subscription for the task's keyword.
    OpenSubscription,
    /// Poll the subscription again at once.
    PollNext,
    /// Suspend until the subscription has an item, then poll it.
    WaitForItem,
    /// Drop the subscription handle.
    Release,
    /// Nothing.
    Nothing,
}

/// The state that a poll outcome leads a streaming task to.
pub open spec fn state_after_poll(o: PollOutcome) -> TaskState {
    match o {
        PollOutcome::EndOfStream => TaskState::Completed,
        PollOutcome::Error(e) => TaskState::Failed(FailureCause::Subscription(e)),
        _ => TaskState::Streaming,
    }
}

/// The action that a poll outcome asks of the driver of a streaming task.
pub open spec fn action_after_poll(o: PollOutcome) -> TaskAction {
    match o {
        PollOutcome::Item(_) => TaskAction::PollNext,
        PollOutcome::Pending => TaskAction::WaitForItem,
        _ => TaskAction::Release,
    }
}

/// The action that cancelling a task in state `st` asks of its driver.
pub open spec fn action_on_cancel(st: TaskState) -> TaskAction {
    if st.holds_subscription() {
        TaskAction::Release
    } else {
        TaskAction::Nothing
    }
}

/// The state that cancelling a task in state `st` leads to.
pub open spec fn state_on_cancel(st: TaskState) -> TaskState {
    if st.is_terminal() {
        st
    } else {
        TaskState::Failed(FailureCause::Cancelled)
    }
}

/// `t2` is `t1` after `start`, which asked for `r`.
pub open spec fn started<S>(t1: StreamTask<S>, t2: StreamTask<S>, r: TaskAction) -> bool {
    &&& t2.wf()
    &&& t2.keyword_view() == t1.keyword_view()
    &&& t2.scores() == t1.scores()
    &&& if t1.state_view() is Created {
        t2.state_view() is Subscribing && r is OpenSubscription
    } else {
        t2.state_view() == t1.state_view() && r is Nothing
    }
}

/// `t2` is `t1` after `on_subscribed(opened)`, which asked for `r`.
pub open spec fn subscribed<S>(
    t1: StreamTask<S>,
    t2: StreamTask<S>,
    opened: Result<(), String>,
    r: TaskAction,
) -> bool {
    &&& t2.wf()
    &&& t2.keyword_view() == t1.keyword_view()
    &&& t2.scores() == t1.scores()
    &&& if t1.state_view() is Subscribing {
        match opened {
            Ok(_) => t2.state_view() is Streaming && r is PollNext,
            Err(e) => t2.state_view() == TaskState::Failed(FailureCause::Subscription(e))
                && r is Nothing,
        }
    } else {
        t2.state_view() == t1.state_view() && r is Nothing
    }
}

/// `t2` is `t1` after `on_poll(outcome, now, scorer)`, which asked for `r`: a
/// streaming task appends the score of a text item, stamped by `next_stamp`,
/// and nothing for any other outcome; a task that is not streaming is
/// unchanged.
pub open spec fn polled<S, F: Fn(&String) -> S>(
    t1: StreamTask<S>,
    t2: StreamTask<S>,
    outcome: PollOutcome,
    now: u64,
    scorer: F,
    r: TaskAction,
) -> bool {
    &&& t2.wf()
    &&& t2.keyword_view() == t1.keyword_view()
    &&& if t1.state_view() is Streaming {
        &&& t2.state_view() == state_after_poll(outcome)
        &&& r == action_after_poll(outcome)
        &&& match outcome {
            PollOutcome::Item(FeedMessage::Text(t)) => {
                &&& t2.scores().len() == t1.scores().len() + 1
                &&& t2.scores().drop_last() =~= t1.scores()
                &&& t2.scores().last().timestamp == next_stamp(t1.scores(), now)
                &&& scorer.ensures((&t,), t2.scores().last().score)
            },
            _ => t2.scores() == t1.scores(),
        }
    } else {
        &&& t2.state_view() == t1.state_view()
        &&& t2.scores() == t1.scores()
        &&& r is Nothing
    }
}

/// A task that has ended (completed, failed, or cancelled) is left as it was
/// by any later poll outcome, and asks for nothing: once cancellation has
/// ended a task, it never polls or appends again.
pub proof fn lemma_ended_task_stays_ended<S, F: Fn(&String) -> S>(
    t1: StreamTask<S>,
    t2: StreamTask<S>,
    outcome: PollOutcome,
    now: u64,
    scorer: F,
    r: TaskAction,
)
    requires
        t1.state_view().is_terminal(),
        polled(t1, t2, outcome, now, scorer, r),
    ensures
        t2.state_view() == t1.state_view(),
        t2.scores() == t1.scores(),
        r is Nothing,
{
}

/// One keyword's stream task.
#[derive(Debug)]
pub struct StreamTask<S> {
    keyword: String,
    state: TaskState,
    series: ScoreSeries<S>,
}

impl<S> StreamTask<S> {
    /// The keyword tracked.
    pub closed spec fn keyword_view(&self) -> Seq<char> {
        self.keyword@
    }

    /// The task's state.
    pub closed spec fn state_view(&self) -> TaskState {
        self.state
    }

    /// The entries of the task's series.
    pub closed spec fn scores(&self) -> Seq<TimestampedScore<S>> {
        self.series@
    }

    pub closed spec fn wf(&self) -> bool {
        self.series.wf()
    }

    /// A task for `keyword`, created, with an empty series.
    pub fn new(keyword: String) -> (r: Self)
        ensures
            r.wf(),
            r.keyword_view() == keyword@,
            r.state_view() == TaskState::Created,
            r.scores() == Seq::<TimestampedScore<S>>::empty(),
    {
        StreamTask { keyword, state: TaskState::Created, series: ScoreSeries::new() }
    }

    /// The series of a well-formed task is in non-decreasing timestamp order,
    /// which is the order in which its items arrived.
    pub proof fn lemma_scores_ordered(t: StreamTask<S>)
        requires
            t.wf(),
        ensures
            ordered(t.scores()),
    {
    }

    /// The keyword tracked.
    pub fn keyword(&self) -> (r: &String)
        ensures
            r@ == self.keyword_view(),
    {
        &self.keyword
    }

    /// The task's state.
    pub fn state(&self) -> (r: &TaskState)
        ensures
            *r == self.state_view(),
    {
        &self.state
    }

    /// The task's series.
    pub fn series(&self) -> (r: &ScoreSeries<S>)
        ensures
            r@ == self.scores(),
            self.wf() ==> r.wf(),
    {
        &self.series
    }

    /// Start a created task: it goes on to open its subscription. In any other
    /// state nothing changes.
    pub fn start(&mut self) -> (r: TaskAction)
        requires
            old(self).wf(),
        ensures
            started(*old(self), *final(self), r),
    {
        match self.state {
            TaskState::Created => {
                self.state = TaskState::Subscribing;
                TaskAction::OpenSubscription
            },
            _ => TaskAction::Nothing,
        }
    }

    /// The outcome of opening the subscription: a subscribing task streams,
    /// or fails with the error. In any other state nothing changes.
    pub fn on_subscribed(&mut self, opened: Result<(), String>) -> (r: TaskAction)
        requires
            old(self).wf(),
        ensures
            subscribed(*old(self), *final(self), opened, r),
    {
        match self.state {
            TaskState::Subscribing => {
                match opened {
                    Ok(_) => {
                        self.state = TaskState::Streaming;
                        TaskAction::PollNext
                    },
                    Err(e) => {
                        self.state = TaskState::Failed(FailureCause::Subscription(e));
                        TaskAction::Nothing
                    },
                }
            },
            _ => TaskAction::Nothing,
        }
    }

    /// Take the outcome of one poll of a streaming task's subscription. A text
    /// item is scored with `scorer` and appended, stamped with `now`; other
    /// items are skipped; the end of the stream completes the task and an
    /// error fails it. In any other state nothing changes.
    pub fn on_poll<F: Fn(&String) -> S>(
        &mut self,
        outcome: PollOutcome,
        now: u64,
        scorer: &F,
    ) -> (r: TaskAction)
        requires
            old(self).wf(),
            forall|t: &String| scorer.requires((t,)),
        ensures
            polled(*old(self), *final(self), outcome, now, *scorer, r),
    {
        match self.state {
            TaskState::Streaming => {},
            _ => {
                return TaskAction::Nothing;
            },
        }
        match outcome {
            PollOutcome::Item(FeedMessage::Text(t)) => {
                let score = scorer(&t);
                self.series.append(score, now);
                TaskAction::PollNext
            },
            PollOutcome::Item(FeedMessage::Other) => TaskAction::PollNext,
            PollOutcome::Pending => TaskAction::WaitForItem,
            PollOutcome::EndOfStream => {
                self.state = TaskState::Completed;
                TaskAction::Release
            },
            PollOutcome::Error(e) => {
                self.state = TaskState::Failed(FailureCause::Subscription(e));
                TaskAction::Release
            },
        }
    }

    /// Cancel the task: a live task fails as cancelled, and one that holds a
    /// subscription asks for it to be released. A finished task is unchanged.
    pub fn cancel(&mut self) -> (r: TaskAction)
        requires
            old(self).wf(),
        ensures
            final(self).wf(),
            final(self).keyword_view() == old(self).keyword_view(),
            final(self).scores() == old(self).scores(),
            final(self).state_view() == state_on_cancel(old(self).state_view()),
            r == action_on_cancel(old(self).state_view()),
    {
        let r = match self.state {
            TaskState::Subscribing => TaskAction::Release,
            TaskState::Streaming => TaskAction::Release,
            _ => TaskAction::Nothing,
        };
        match self.state {
            TaskState::Completed => {},
            TaskState::Failed(_) => {},
            _ => {
                self.state = TaskState::Failed(FailureCause::Cancelled);
            },
        }
        r
    }
}

} // verus!
