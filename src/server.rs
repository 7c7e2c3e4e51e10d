//! The aggregation engine: one stream task per distinct keyword of a verified
//! configuration, and the single place where a task's failure is either kept
//! to its keyword or made to stop the whole run.
use crate::config::VerifiedConfig;
use crate::stream::{
    action_on_cancel, polled, started, state_on_cancel, subscribed, PollOutcome, ScoreSeries,
    StreamTask, TaskAction, TaskState,
};
use vstd::prelude::*;

verus! {

/// The views of a sequence of strings.
pub open spec fn string_views(ks: Seq<String>) -> Seq<Seq<char>> {
    ks.map_values(|k: String| k@)
}

/// The distinct keywords of `ks`, each at its first occurrence.
pub open spec fn distinct_keywords(ks: Seq<Seq<char>>) -> Seq<Seq<char>>
    decreases ks.len(),
{
    if ks.len() == 0 {
        Seq::empty()
    } else {
        let d = distinct_keywords(ks.drop_last());
        if d.contains(ks.last()) {
            d
        } else {
            d.push(ks.last())
        }
    }
}

/// Each keyword of `ks` occurs exactly once in `distinct_keywords(ks)`, which
/// holds nothing else.
pub proof fn lemma_distinct_keywords(ks: Seq<Seq<char>>)
    ensures
        distinct_keywords(ks).no_duplicates(),
        forall|k: Seq<char>| ks.contains(k) <==> distinct_keywords(ks).contains(k),
    decreases ks.len(),
{
    if ks.len() > 0 {
        let front = ks.drop_last();
        let l = ks.last();
        let d = distinct_keywords(front);
        let dd = distinct_keywords(ks);
        lemma_distinct_keywords(front);
        assert forall|k: Seq<char>| ks.contains(k) <==> front.contains(k) || k == l by {
            if ks.contains(k) {
                let i = choose|i: int| 0 <= i < ks.len() && ks[i] == k;
                if i < ks.len() - 1 {
                    assert(front[i] == k);
                }
            }
            if front.contains(k) {
                let i = choose|i: int| 0 <= i < front.len() && front[i] == k;
                assert(ks[i] == k);
            }
            if k == l {
                assert(ks[ks.len() - 1] == k);
            }
        }
        if !d.contains(l) {
            assert(dd == d.push(l));
            assert forall|k: Seq<char>| dd.contains(k) <==> d.contains(k) || k == l by {
                if d.contains(k) {
                    let i = choose|i: int| 0 <= i < d.len() && d[i] == k;
                    assert(dd[i] == k);
                }
                if dd.contains(k) {
                    let i = choose|i: int| 0 <= i < dd.len() && dd[i] == k;
                    if i < d.len() {
                        assert(d[i] == k);
                    }
                }
                if k == l {
                    assert(dd[d.len() as int] == l);
                }
            }
        }
    }
}

/// What the engine does when a task fails on its subscription.
#[derive(Clone, Copy, Debug, PartialEq, Eq, Structural)]
pub enum FailurePolicy {
    /// The failure stays with its keyword; the other tasks run on.
    Isolate,
    /// The failure ends the run: every other task is cancelled.
    AbortAll,
}

/// The stream tasks of one run.
#[derive(Debug)]
pub struct Engine<S> {
    tasks: Vec<StreamTask<S>>,
    policy: FailurePolicy,
}

/// The keywords of `ts`, in order.
pub open spec fn task_keywords<S>(ts: Seq<StreamTask<S>>) -> Seq<Seq<char>> {
    ts.map_values(|t: StreamTask<S>| t.keyword_view())
}

/// `t2` is `t1` cancelled.
pub open spec fn cancelled<S>(t1: StreamTask<S>, t2: StreamTask<S>) -> bool {
    &&& t2.wf()
    &&& t2.keyword_view() == t1.keyword_view()
    &&& t2.scores() == t1.scores()
    &&& t2.state_view() == state_on_cancel(t1.state_view())
}

/// Under `p`, the step of one task from `before` to `after` stops the run: the
/// task has just failed and the policy is to abort.
pub open spec fn aborts(p: FailurePolicy, before: TaskState, after: TaskState) -> bool {
    p is AbortAll && !(before is Failed) && after is Failed
}

/// The tasks `after` other than `i`, with `r` the actions asked of their
/// drivers, are those `before` untouched, or cancelled where `abort` holds.
pub open spec fn others_after<S>(
    before: Seq<StreamTask<S>>,
    after: Seq<StreamTask<S>>,
    i: int,
    abort: bool,
    r: Seq<TaskAction>,
) -> bool {
    forall|j: int|
        #![trigger after[j]]
        0 <= j < before.len() && j != i ==> {
            &&& !abort ==> after[j] == before[j] && r[j] is Nothing
            &&& abort ==> cancelled(before[j], after[j]) && r[j] == action_on_cancel(
                before[j].state_view(),
            )
        }
}

proof fn lemma_others_after_frame<S>(
    before: Seq<StreamTask<S>>,
    mid: Seq<StreamTask<S>>,
    after: Seq<StreamTask<S>>,
    i: int,
    abort: bool,
    r: Seq<TaskAction>,
)
    requires
        others_after(mid, after, i, abort, r),
        mid.len() == before.len(),
        forall|j: int| 0 <= j < before.len() && j != i ==> mid[j] == before[j],
    ensures
        others_after(before, after, i, abort, r),
{
    assert forall|j: int| 0 <= j < before.len() && j != i implies {
        &&& !abort ==> #[trigger] after[j] == before[j] && r[j] is Nothing
        &&& abort ==> cancelled(before[j], after[j]) && r[j] == action_on_cancel(
            before[j].state_view(),
        )
    } by {
        assert(mid[j] == before[j]);
        let t = after[j];
        assert(!abort ==> t == mid[j] && r[j] is Nothing);
        assert(abort ==> cancelled(mid[j], t) && r[j] == action_on_cancel(mid[j].state_view()));
    }
}

impl<S> Engine<S> {
    /// The tasks, one per distinct keyword.
    pub closed spec fn tasks_view(&self) -> Seq<StreamTask<S>> {
        self.tasks@
    }

    /// The failure policy.
    pub closed spec fn policy_view(&self) -> FailurePolicy {
        self.policy
    }

    /// Every task is well formed and no keyword has two tasks.
    pub open spec fn wf(&self) -> bool {
        &&& forall|i: int| 0 <= i < self.tasks_view().len() ==> (#[trigger] self.tasks_view()[i]).wf()
        &&& task_keywords(self.tasks_view()).no_duplicates()
    }

    /// How the tasks other than `i` went from `old` to `new`, with `r` the
    /// actions asked of their drivers: untouched, or cancelled where the step
    /// of task `i` aborts the run.
    pub open spec fn others_after_step(old: &Self, new: &Self, i: int, r: Seq<TaskAction>) -> bool {
        others_after(
            old.tasks_view(),
            new.tasks_view(),
            i,
            aborts(
                old.policy_view(),
                old.tasks_view()[i].state_view(),
                new.tasks_view()[i].state_view(),
            ),
            r,
        )
    }

    /// An engine with one created task, with an empty series, for each
    /// distinct keyword of `keywords`, in the order of first occurrence.
    pub fn new(keywords: &Vec<String>, policy: FailurePolicy) -> (r: Self)
        ensures
            r.wf(),
            r.policy_view() == policy,
            task_keywords(r.tasks_view()) == distinct_keywords(string_views(keywords@)),
            r.tasks_view().len() == distinct_keywords(string_views(keywords@)).len(),
            forall|k: Seq<char>|
                string_views(keywords@).contains(k) <==> task_keywords(r.tasks_view()).contains(k),
            forall|i: int|
                0 <= i < r.tasks_view().len() ==> (#[trigger] r.tasks_view()[i]).state_view()
                    is Created && r.tasks_view()[i].scores().len() == 0,
    {
        let ghost views = string_views(keywords@);
        let mut tasks: Vec<StreamTask<S>> = Vec::new();
        let mut i: usize = 0;
        while i < keywords.len()
            invariant
                i <= keywords.len(),
                views == string_views(keywords@),
                task_keywords(tasks@) == distinct_keywords(views.take(i as int)),
                forall|j: int|
                    0 <= j < tasks@.len() ==> (#[trigger] tasks@[j]).wf() && tasks@[j].state_view()
                        is Created && tasks@[j].scores().len() == 0,
            decreases keywords.len() - i,
        {
            let k = &keywords[i];
            assert(views.take(i + 1).drop_last() =~= views.take(i as int));
            assert(views.take(i + 1).last() == k@);
            let mut found = false;
            let mut j: usize = 0;
            while j < tasks.len()
                invariant
                    j <= tasks.len(),
                    found <==> exists|m: int| 0 <= m < j && tasks@[m].keyword_view() == k@,
                decreases tasks.len() - j,
            {
                if tasks[j].keyword().eq(k) {
                    found = true;
                }
                j = j + 1;
            }
            proof {
                let d = distinct_keywords(views.take(i as int));
                if found {
                    let m = choose|m: int| 0 <= m < j && tasks@[m].keyword_view() == k@;
                    assert(d[m] == k@);
                } else if d.contains(k@) {
                    let m = choose|m: int| 0 <= m < d.len() && d[m] == k@;
                    assert(tasks@[m].keyword_view() == k@);
                }
            }
            if !found {
                let t = StreamTask::new(k.clone());
                tasks.push(t);
                assert(task_keywords(tasks@) =~= distinct_keywords(views.take(i as int)).push(k@));
            }
            i = i + 1;
        }
        assert(views.take(keywords.len() as int) =~= views);
        proof {
            lemma_distinct_keywords(views);
        }
        Engine { tasks, policy }
    }

    /// Number of tasks.
    pub fn len(&self) -> (r: usize)
        ensures
            r == self.tasks_view().len(),
    {
        self.tasks.len()
    }

    /// The task at position `i`.
    pub fn task(&self, i: usize) -> (r: &StreamTask<S>)
        requires
            i < self.tasks_view().len(),
        ensures
            *r == self.tasks_view()[i as int],
    {
        &self.tasks[i]
    }

    /// The position of the task for `keyword`, if there is one.
    pub fn find(&self, keyword: &String) -> (r: Option<usize>)
        ensures
            r matches Some(i) ==> i < self.tasks_view().len()
                && self.tasks_view()[i as int].keyword_view() == keyword@,
            r is None ==> !task_keywords(self.tasks_view()).contains(keyword@),
    {
        let mut j: usize = 0;
        while j < self.tasks.len()
            invariant
                j <= self.tasks@.len(),
                forall|m: int| 0 <= m < j ==> self.tasks@[m].keyword_view() != keyword@,
            decreases self.tasks@.len() - j,
        {
            if self.tasks[j].keyword().eq(keyword) {
                return Some(j);
            }
            j = j + 1;
        }
        proof {
            if task_keywords(self.tasks@).contains(keyword@) {
                let m = choose|m: int|
                    0 <= m < self.tasks@.len() && task_keywords(self.tasks@)[m] == keyword@;
                assert(self.tasks@[m].keyword_view() == keyword@);
            }
        }
        None
    }

    /// The series of the task for `keyword`, if there is one.
    pub fn get_series(&self, keyword: &String) -> (r: Option<&ScoreSeries<S>>)
        ensures
            r matches Some(s) ==> exists|i: int|
                0 <= i < self.tasks_view().len() && self.tasks_view()[i].keyword_view()
                    == keyword@ && s@ == #[trigger] self.tasks_view()[i].scores(),
            r is None <==> !task_keywords(self.tasks_view()).contains(keyword@),
    {
        match self.find(keyword) {
            Some(i) => {
                assert(task_keywords(self.tasks@)[i as int] == keyword@);
                Some(self.tasks[i].series())
            },
            None => None,
        }
    }

    /// Whether the task at `i` has failed.
    fn failed_at(&self, i: usize) -> (r: bool)
        requires
            i < self.tasks_view().len(),
        ensures
            r == self.tasks_view()[i as int].state_view() is Failed,
    {
        match self.tasks[i].state() {
            TaskState::Failed(_) => true,
            _ => false,
        }
    }

    /// `n` actions that ask for nothing.
    fn no_actions(n: usize) -> (r: Vec<TaskAction>)
        ensures
            r@.len() == n,
            forall|j: int| 0 <= j < n ==> r@[j] is Nothing,
    {
        let mut r: Vec<TaskAction> = Vec::new();
        let mut j: usize = 0;
        while j < n
            invariant
                j <= n,
                r@.len() == j,
                forall|m: int| 0 <= m < j ==> r@[m] is Nothing,
            decreases n - j,
        {
            r.push(TaskAction::Nothing);
            j = j + 1;
        }
        r
    }

    /// After a step of task `i`, apply the failure policy: where the step
    /// aborts the run, cancel every other task and record its action in `acts`.
    fn settle(&mut self, i: usize, was_failed: bool, acts: &mut Vec<TaskAction>)
        requires
            old(self).wf(),
            i < old(self).tasks_view().len(),
            old(acts)@.len() == old(self).tasks_view().len(),
            forall|j: int| 0 <= j < old(acts)@.len() && j != i ==> (#[trigger] old(acts)@[j]) is Nothing,
        ensures
            final(self).wf(),
            final(self).policy_view() == old(self).policy_view(),
            final(self).tasks_view().len() == old(self).tasks_view().len(),
            final(self).tasks_view()[i as int] == old(self).tasks_view()[i as int],
            final(acts)@.len() == old(acts)@.len(),
            final(acts)@[i as int] == old(acts)@[i as int],
            others_after(
                old(self).tasks_view(),
                final(self).tasks_view(),
                i as int,
                final(self).policy_view() is AbortAll && !was_failed && old(self).tasks_view()[i as int].state_view() is Failed,
                final(acts)@,
            ),
    {
        let abort = match self.policy {
            FailurePolicy::AbortAll => !was_failed && self.failed_at(i),
            FailurePolicy::Isolate => false,
        };
        if !abort {
            return;
        }
        let ghost before = self.tasks@;
        let ghost acts0 = acts@;
        let n: usize = self.tasks.len();
        let mut j: usize = 0;
        while j < n
            invariant
                n == self.tasks@.len(),
                n == before.len(),
                acts@.len() == n,
                i < n,
                j <= n,
                acts@[i as int] == acts0[i as int],
                self.tasks@[i as int] == before[i as int],
                task_keywords(self.tasks@) =~= task_keywords(before),
                forall|m: int| 0 <= m < n ==> (#[trigger] self.tasks@[m]).wf(),
                forall|m: int| j <= m < n ==> self.tasks@[m] == before[m],
                forall|m: int|
                    0 <= m < j && m != i ==> cancelled(before[m], #[trigger] self.tasks@[m]),
                forall|m: int|
                    0 <= m < j && m != i ==> #[trigger] acts@[m] == action_on_cancel(before[m].state_view()),
                self.policy == old(self).policy,
                before == old(self).tasks@,
                task_keywords(before).no_duplicates(),
            decreases n - j,
        {
            if j != i {
                let ghost prev = self.tasks@;
                let ghost prev_acts = acts@;
                let a = self.tasks[j].cancel();
                assert(self.tasks@ == prev.update(j as int, self.tasks@[j as int]));
                assert(cancelled(before[j as int], self.tasks@[j as int]));
                acts[j] = a;
                assert(acts@[j as int] == action_on_cancel(before[j as int].state_view()));
                assert(task_keywords(self.tasks@) =~= task_keywords(before));
                assert forall|m: int|
                    0 <= m < j + 1 && m != i implies cancelled(before[m], #[trigger] self.tasks@[m]) by {
                    if m < j {
                        assert(self.tasks@[m] == prev[m]);
                    }
                }
                assert forall|m: int|
                    0 <= m < j + 1 && m != i implies #[trigger] acts@[m] == action_on_cancel(before[m].state_view()) by {
                    if m < j {
                        assert(acts@[m] == prev_acts[m]);
                    }
                }
            }
            j = j + 1;
        }
    }

    /// Start the task at `i`; the others are unchanged.
    pub fn start(&mut self, i: usize) -> (r: TaskAction)
        requires
            old(self).wf(),
            i < old(self).tasks_view().len(),
        ensures
            final(self).wf(),
            final(self).policy_view() == old(self).policy_view(),
            final(self).tasks_view().len() == old(self).tasks_view().len(),
            started(old(self).tasks_view()[i as int], final(self).tasks_view()[i as int], r),
            forall|j: int|
                0 <= j < old(self).tasks_view().len() && j != i ==> #[trigger] final(self).tasks_view()[j]
                    == old(self).tasks_view()[j],
    {
        let ghost before = self.tasks@;
        let r = self.tasks[i].start();
        assert(task_keywords(self.tasks@) =~= task_keywords(before));
        r
    }

    /// Hand the task at `i` the outcome of opening its subscription, then apply
    /// the failure policy. The result holds the action for each task.
    pub fn on_subscribed(&mut self, i: usize, opened: Result<(), String>) -> (r: Vec<TaskAction>)
        requires
            old(self).wf(),
            i < old(self).tasks_view().len(),
        ensures
            final(self).wf(),
            final(self).policy_view() == old(self).policy_view(),
            final(self).tasks_view().len() == old(self).tasks_view().len(),
            r@.len() == old(self).tasks_view().len(),
            subscribed(
                old(self).tasks_view()[i as int],
                final(self).tasks_view()[i as int],
                opened,
                r@[i as int],
            ),
            Self::others_after_step(&*old(self), &*final(self), i as int, r@),
    {
        let ghost before = self.tasks@;
        let mut acts = Self::no_actions(self.tasks.len());
        let was_failed = self.failed_at(i);
        let a = self.tasks[i].on_subscribed(opened);
        acts[i] = a;
        assert(task_keywords(self.tasks@) =~= task_keywords(before));
        let ghost mid = self.tasks@;
        assert(forall|j: int| 0 <= j < before.len() && j != i ==> mid[j] == before[j]);
        self.settle(i, was_failed, &mut acts);
        proof {
            lemma_others_after_frame(
                before,
                mid,
                self.tasks@,
                i as int,
                self.policy is AbortAll && !was_failed && mid[i as int].state_view() is Failed,
                acts@,
            );
        }
        acts
    }

    /// Hand the task at `i` the outcome of one poll of its subscription, with
    /// the time `now` and the sentiment scorer, then apply the failure policy.
    /// The result holds the action for each task.
    pub fn on_poll<F: Fn(&String) -> S>(
        &mut self,
        i: usize,
        outcome: PollOutcome,
        now: u64,
        scorer: &F,
    ) -> (r: Vec<TaskAction>)
        requires
            old(self).wf(),
            i < old(self).tasks_view().len(),
            forall|t: &String| scorer.requires((t,)),
        ensures
            final(self).wf(),
            final(self).policy_view() == old(self).policy_view(),
            final(self).tasks_view().len() == old(self).tasks_view().len(),
            r@.len() == old(self).tasks_view().len(),
            polled(
                old(self).tasks_view()[i as int],
                final(self).tasks_view()[i as int],
                outcome,
                now,
                *scorer,
                r@[i as int],
            ),
            Self::others_after_step(&*old(self), &*final(self), i as int, r@),
    {
        let ghost before = self.tasks@;
        let mut acts = Self::no_actions(self.tasks.len());
        let was_failed = self.failed_at(i);
        let a = self.tasks[i].on_poll(outcome, now, scorer);
        acts[i] = a;
        assert(task_keywords(self.tasks@) =~= task_keywords(before));
        let ghost mid = self.tasks@;
        assert(forall|j: int| 0 <= j < before.len() && j != i ==> mid[j] == before[j]);
        self.settle(i, was_failed, &mut acts);
        proof {
            lemma_others_after_frame(
                before,
                mid,
                self.tasks@,
                i as int,
                self.policy is AbortAll && !was_failed && mid[i as int].state_view() is Failed,
                acts@,
            );
        }
        acts
    }

    /// Cancel the run: every live task fails as cancelled, and each task that
    /// held a subscription asks for it to be released. Afterwards no task is
    /// live. The result holds the action for each task.
    pub fn cancel_all(&mut self) -> (r: Vec<TaskAction>)
        requires
            old(self).wf(),
        ensures
            final(self).wf(),
            final(self).policy_view() == old(self).policy_view(),
            final(self).tasks_view().len() == old(self).tasks_view().len(),
            r@.len() == old(self).tasks_view().len(),
            forall|j: int|
                0 <= j < old(self).tasks_view().len() ==> cancelled(
                    old(self).tasks_view()[j],
                    #[trigger] final(self).tasks_view()[j],
                ) && r@[j] == action_on_cancel(old(self).tasks_view()[j].state_view()),
            forall|j: int|
                0 <= j < final(self).tasks_view().len() ==> (#[trigger] final(self).tasks_view()[j]).state_view().is_terminal(),
            forall|j: int|
                0 <= j < old(self).tasks_view().len() && (#[trigger] old(self).tasks_view()[j]).state_view().holds_subscription()
                    ==> r@[j] is Release,
    {
        let ghost before = self.tasks@;
        let n: usize = self.tasks.len();
        let mut acts: Vec<TaskAction> = Vec::new();
        let mut j: usize = 0;
        while j < n
            invariant
                n == self.tasks@.len(),
                n == before.len(),
                acts@.len() == j,
                j <= n,
                task_keywords(self.tasks@) =~= task_keywords(before),
                forall|m: int| 0 <= m < n ==> (#[trigger] self.tasks@[m]).wf(),
                forall|m: int| j <= m < n ==> self.tasks@[m] == before[m],
                forall|m: int| 0 <= m < j ==> cancelled(before[m], #[trigger] self.tasks@[m]),
                forall|m: int|
                    0 <= m < j ==> #[trigger] acts@[m] == action_on_cancel(before[m].state_view()),
                self.policy == old(self).policy,
                before == old(self).tasks@,
                task_keywords(before).no_duplicates(),
            decreases n - j,
        {
            let ghost prev = self.tasks@;
            let ghost prev_acts = acts@;
            let a = self.tasks[j].cancel();
            assert(self.tasks@ == prev.update(j as int, self.tasks@[j as int]));
            assert(cancelled(before[j as int], self.tasks@[j as int]));
            acts.push(a);
            assert(acts@[j as int] == action_on_cancel(before[j as int].state_view()));
            assert(task_keywords(self.tasks@) =~= task_keywords(before));
            assert forall|m: int| 0 <= m < j + 1 implies cancelled(before[m], #[trigger] self.tasks@[m]) by {
                if m < j {
                    assert(self.tasks@[m] == prev[m]);
                }
            }
            assert forall|m: int|
                0 <= m < j + 1 implies #[trigger] acts@[m] == action_on_cancel(before[m].state_view()) by {
                if m < j {
                    assert(acts@[m] == prev_acts[m]);
                }
            }
            j = j + 1;
        }
        assert forall|m: int| 0 <= m < n implies cancelled(before[m], #[trigger] self.tasks@[m])
            && acts@[m] == action_on_cancel(before[m].state_view()) && self.tasks@[m].state_view().is_terminal()
            && (before[m].state_view().holds_subscription() ==> acts@[m] is Release) by {
            assert(cancelled(before[m], self.tasks@[m]));
            assert(acts@[m] == action_on_cancel(before[m].state_view()));
        }
        acts
    }

    /// Every task is completed or failed.
    pub fn is_finished(&self) -> (r: bool)
        ensures
            r <==> forall|i: int|
                0 <= i < self.tasks_view().len() ==> (#[trigger] self.tasks_view()[i]).state_view().is_terminal(),
    {
        let mut j: usize = 0;
        while j < self.tasks.len()
            invariant
                j <= self.tasks@.len(),
                forall|m: int| 0 <= m < j ==> (#[trigger] self.tasks@[m]).state_view().is_terminal(),
            decreases self.tasks@.len() - j,
        {
            match self.tasks[j].state() {
                TaskState::Completed => {},
                TaskState::Failed(_) => {},
                _ => {
                    return false;
                },
            }
            j = j + 1;
        }
        true
    }
}

} // verus!

verus! {

/// With the isolating policy, a step of one task leaves every other task as
/// it was: a subscription error on one keyword never stops another keyword's
/// task, which streams on and appends as before.
pub proof fn lemma_failure_isolated<S>(
    before: &Engine<S>,
    after: &Engine<S>,
    i: int,
    r: Seq<TaskAction>,
)
    requires
        before.policy_view() is Isolate,
        0 <= i < before.tasks_view().len(),
        Engine::others_after_step(before, after, i, r),
    ensures
        forall|j: int|
            0 <= j < before.tasks_view().len() && j != i ==> #[trigger] after.tasks_view()[j]
                == before.tasks_view()[j] && r[j] is Nothing,
{
}

/// The run's supervisor: it holds a verified configuration and builds the
/// engine that tracks its keywords.
#[derive(Debug)]
pub struct Server {
    config: VerifiedConfig,
}

impl Server {
    /// The configuration held.
    pub closed spec fn config_view(&self) -> crate::config::TwitterConfig {
        self.config.view()
    }

    /// A server for a verified configuration.
    pub fn new(config: VerifiedConfig) -> (r: Self)
        ensures
            r.config_view() == config.view(),
    {
        Server { config }
    }

    /// The configuration held.
    pub fn config(&self) -> (r: &VerifiedConfig)
        ensures
            r.view() == self.config_view(),
    {
        &self.config
    }

    /// The engine for this run: one created task per distinct keyword of the
    /// configuration, each with an empty series, under `policy`.
    pub fn engine<S>(&self, policy: FailurePolicy) -> (r: Engine<S>)
        ensures
            r.wf(),
            r.policy_view() == policy,
            task_keywords(r.tasks_view()) == distinct_keywords(
                string_views(self.config_view().keywords@),
            ),
            forall|i: int|
                0 <= i < r.tasks_view().len() ==> (#[trigger] r.tasks_view()[i]).state_view()
                    is Created && r.tasks_view()[i].scores().len() == 0,
            forall|i: int|
                0 <= i < r.tasks_view().len() ==> crate::config::valid_keyword(
                    #[trigger] r.tasks_view()[i].keyword_view(),
                ),
    {
        let cfg = self.config.get_config();
        let e = Engine::new(&cfg.keywords, policy);
        proof {
            let ks = string_views(cfg.keywords@);
            assert forall|i: int| 0 <= i < e.tasks_view().len() implies crate::config::valid_keyword(
                #[trigger] e.tasks_view()[i].keyword_view(),
            ) by {
                let k = e.tasks_view()[i].keyword_view();
                assert(task_keywords(e.tasks_view())[i] == k);
                assert(ks.contains(k));
                let m = choose|m: int| 0 <= m < ks.len() && ks[m] == k;
                assert(cfg.keywords@[m]@ == k);
            }
        }
        e
    }
}

} // verus!
