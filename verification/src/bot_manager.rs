//! The supervisor of the bot instances: the pool of workers, and the step
//! that reconciles one desired instance with it. The host carries out the
//! plan of each step: it holds the threads and the actors.

use vstd::prelude::*;

use crate::config::notification::batch::NotificationBatch;
use crate::config::result::{ConfigError, ConfigResult};
use crate::config::traits::provider::Provider;
use crate::config::RunnerConfig;
use crate::db::bots::BotInstance;
use crate::utils::table::Table;

verus! {

/// Stands for the join handle of a worker thread, which the host keeps.
#[derive(Clone, Copy, Debug, PartialEq, Eq, Structural)]
pub struct BotThread {}

/// How a worker thread that has stopped came to its end.
#[derive(Clone, Copy, Debug, PartialEq, Eq, Structural)]
pub enum ThreadExit {
    /// The thread returned without an error.
    Completed,
    /// The thread returned an error.
    Failed,
    /// The thread panicked.
    Panicked,
}

/// The notification thread of one worker.
#[derive(Clone, Copy, Debug, PartialEq, Eq, Structural)]
pub enum NotificatorThread {
    /// The thread is wanted; the slot holds it once it has been started.
    Running(Option<BotThread>),
    /// The thread ended with "no more work, ever" and is not started again
    /// for as long as this worker lives.
    Done,
}

#[derive(Clone)]
pub struct BotInfo {
    pub name: String,
}

/// The supervisor's record of one running worker.
pub struct BotRunner {
    pub info: BotInfo,
    /// The script that the worker's script-runtime actor was created with.
    pub script: String,
    pub notificator: NotificatorThread,
    pub thread: Option<BotThread>,
}

/// What the host saw of a worker's two threads when it last looked:
/// `None` for a thread that is still alive (or was never started),
/// the way it ended for one that has finished.
#[derive(Clone, Copy, Debug, PartialEq, Eq, Structural)]
pub struct WorkerHealth {
    pub dispatch: Option<ThreadExit>,
    pub notificator: Option<ThreadExit>,
}

/// Where an instance stands when a reconciliation tick looks at it.
#[derive(Clone, Copy, Debug, PartialEq, Eq, Structural)]
pub enum InstanceState {
    /// No worker exists for the instance.
    Absent,
    /// A worker exists, its dispatch thread has not been started.
    Starting,
    /// The worker's dispatch thread is alive.
    Running,
    /// The worker's dispatch thread was found dead.
    CrashedRestart,
    /// The record's restart flag asks for a fresh worker.
    ReloadRestart,
}

/// What the host has to do for one instance in this tick, in this order.
#[derive(Clone, Copy, Debug, PartialEq, Eq, Structural)]
pub struct DispatchPlan {
    /// The state in which the tick found the instance.
    pub found: InstanceState,
    /// Discard the current worker: its actor and both threads.
    pub teardown: bool,
    /// Build a fresh worker from the record: a new actor fed with the
    /// record's script.
    pub create: bool,
    /// The dispatch thread was found dead: join it and log how it ended.
    pub dispatch_exit: Option<ThreadExit>,
    /// Start a dispatch thread.
    pub spawn_dispatch: bool,
    /// The notification thread was found finished: join it and log how it
    /// ended.
    pub notificator_exit: Option<ThreadExit>,
    /// Start a notification thread.
    pub spawn_notificator: bool,
}

/// The pool of running workers, one per instance name.
pub struct BotManager {
    pub bot_pool: Table<BotRunner>,
}

/// What the notification thread does next.
pub enum NotificatorStep<'a, P: Provider> {
    /// Sleep for the time that the batch waits for, then deliver its rules.
    Deliver(NotificationBatch<'a, P>),
    /// Nothing is pending now: look again after the next tick.
    PollAgain,
    /// The configuration has no rules: there is no more work, ever.
    Retire,
}

/// What is done for one recipient of a notification.
#[derive(Debug)]
pub enum Delivery {
    /// Send the text.
    Send(String),
    /// The recipient gets no message: go on with the next one.
    Skip,
    /// Resolving failed: log the error, and go on with the next recipient.
    Report(ConfigError),
}

/// What is done for one recipient, for the text `text` that was resolved
/// for it: no text is no error, and an error does not end the batch.
pub fn delivery_of(text: ConfigResult<Option<String>>) -> (delivery: Delivery)
    ensures
        match text {
            Ok(Some(t)) => delivery matches Delivery::Send(s) && s == t,
            Ok(None) => delivery is Skip,
            Err(e) => delivery matches Delivery::Report(r) && r == e,
        },
{
    match text {
        Ok(Some(text)) => Delivery::Send(text),
        Ok(None) => Delivery::Skip,
        Err(e) => Delivery::Report(e),
    }
}

/// What the notification thread of a worker does next: it delivers the
/// batch that fires next, seen from the time that the machine's clock
/// shows; with rules but no batch it looks again later; without rules it
/// retires.
pub fn notificator_step<P: Provider>(rc: &RunnerConfig<P>) -> (step: NotificatorStep<'_, P>)
    ensures
        rc.notifications@.len() == 0 ==> step is Retire,
        rc.notifications@.len() > 0 ==> !(step is Retire),
        step matches NotificatorStep::Deliver(batch) ==> exists|now: crate::clock::Timestamp|
            rc.plannable(now) && rc.is_batch_at(batch, now),
{
    if rc.notifications.len() == 0 {
        return NotificatorStep::Retire;
    }
    match rc.get_nearest_notifications() {
        Some(batch) => NotificatorStep::Deliver(batch),
        None => NotificatorStep::PollAgain,
    }
}

/// A worker, where there is one, carries the name `name`.
pub open spec fn carries_name(runner: Option<BotRunner>, name: Seq<char>) -> bool {
    match runner {
        Some(r) => r.info.name@ == name,
        None => true,
    }
}

/// A dispatch slot after the health check: a thread that has finished leaves
/// the slot empty.
pub open spec fn cleared_thread(thread: Option<BotThread>, exit: Option<ThreadExit>) -> Option<
    BotThread,
> {
    if thread is Some && exit is Some {
        None
    } else {
        thread
    }
}

/// A notification slot after the health check: a thread that ended without
/// an error is done for good, one that failed or panicked leaves the slot
/// empty.
pub open spec fn checked_notificator(
    n: NotificatorThread,
    exit: Option<ThreadExit>,
) -> NotificatorThread {
    match (n, exit) {
        (NotificatorThread::Running(Some(_)), Some(ThreadExit::Completed)) => NotificatorThread::Done,
        (NotificatorThread::Running(Some(_)), Some(_)) => NotificatorThread::Running(None),
        _ => n,
    }
}

/// The worker that a tick keeps: none where there is none, and none where the
/// restart flag is set.
pub open spec fn kept_runner(current: Option<BotRunner>, restart_flag: bool) -> Option<BotRunner> {
    if restart_flag {
        None
    } else {
        current
    }
}

/// The state in which a tick finds an instance.
pub open spec fn found_state(
    current: Option<BotRunner>,
    restart_flag: bool,
    health: WorkerHealth,
) -> InstanceState {
    match current {
        None => InstanceState::Absent,
        Some(r) => if restart_flag {
            InstanceState::ReloadRestart
        } else if r.thread is None {
            InstanceState::Starting
        } else if health.dispatch is Some {
            InstanceState::CrashedRestart
        } else {
            InstanceState::Running
        },
    }
}

/// The plan of one tick for one instance.
pub open spec fn plan_for(
    current: Option<BotRunner>,
    restart_flag: bool,
    health: WorkerHealth,
) -> DispatchPlan {
    match kept_runner(current, restart_flag) {
        None => DispatchPlan {
            found: found_state(current, restart_flag, health),
            teardown: current is Some,
            create: true,
            dispatch_exit: None,
            spawn_dispatch: true,
            notificator_exit: None,
            spawn_notificator: true,
        },
        Some(r) => DispatchPlan {
            found: found_state(current, restart_flag, health),
            teardown: false,
            create: false,
            dispatch_exit: if r.thread is Some {
                health.dispatch
            } else {
                None
            },
            spawn_dispatch: cleared_thread(r.thread, health.dispatch) is None,
            notificator_exit: if r.notificator matches NotificatorThread::Running(Some(_)) {
                health.notificator
            } else {
                None
            },
            spawn_notificator: checked_notificator(r.notificator, health.notificator)
                == NotificatorThread::Running(None),
        },
    }
}

/// The notification slot at the end of a tick: done stays done, anything
/// else holds a thread.
pub open spec fn settled_notificator(n: NotificatorThread) -> NotificatorThread {
    match n {
        NotificatorThread::Done => NotificatorThread::Done,
        NotificatorThread::Running(_) => NotificatorThread::Running(Some(BotThread {  })),
    }
}

/// Whether `next` is the worker that a tick leaves for the instance `bi`.
pub open spec fn is_runner_after(
    next: BotRunner,
    current: Option<BotRunner>,
    bi: BotInstance,
    health: WorkerHealth,
) -> bool {
    &&& next.info.name@ == bi.name@
    &&& next.thread == Some(BotThread {  })
    &&& match kept_runner(current, bi.restart_flag) {
        None => {
            &&& next.script@ == bi.script@
            &&& next.notificator == NotificatorThread::Running(Some(BotThread {  }))
        },
        Some(r) => {
            &&& next.script@ == r.script@
            &&& next.notificator == settled_notificator(
                checked_notificator(r.notificator, health.notificator),
            )
        },
    }
}

/// Checks whether a dispatch thread has finished; if so the slot is cleared,
/// so that the thread is started again.
pub fn clear_finished_thread(thread: Option<BotThread>, exit: Option<ThreadExit>) -> (cleared:
    Option<BotThread>)
    ensures
        cleared == cleared_thread(thread, exit),
{
    match thread {
        Some(t) => match exit {
            Some(_) => None,
            None => Some(t),
        },
        None => None,
    }
}

/// Sets the notification slot to `Done` if its thread ended without an
/// error, and clears it if the thread returned an error or panicked.
pub fn check_notificator_done(n: NotificatorThread, exit: Option<ThreadExit>) -> (checked:
    NotificatorThread)
    ensures
        checked == checked_notificator(n, exit),
{
    match n {
        NotificatorThread::Running(Some(thread)) => match exit {
            Some(ThreadExit::Completed) => NotificatorThread::Done,
            Some(_) => NotificatorThread::Running(None),
            None => NotificatorThread::Running(Some(thread)),
        },
        other => other,
    }
}

/// A pool in which every worker stands under its own name stays such a
/// pool when the entry of one name is replaced by a worker of that name, or
/// leaves.
pub proof fn lemma_names_carried(
    before: Table<BotRunner>,
    after: Table<BotRunner>,
    name: Seq<char>,
)
    requires
        forall|other: Seq<char>| carries_name(#[trigger] before.spec_get(other), other),
        forall|other: Seq<char>|
            other != name ==> #[trigger] after.spec_get(other) == before.spec_get(other),
        carries_name(after.spec_get(name), name),
    ensures
        forall|other: Seq<char>| carries_name(#[trigger] after.spec_get(other), other),
{
}

impl BotManager {
    /// The worker of that name, if the pool holds one.
    pub open spec fn runner(&self, name: Seq<char>) -> Option<BotRunner> {
        self.bot_pool.spec_get(name)
    }

    /// The pool's invariant: one worker per name, each under its own name.
    pub open spec fn wf(&self) -> bool {
        &&& self.bot_pool.wf()
        &&& forall|name: Seq<char>| carries_name(#[trigger] self.bot_pool.spec_get(name), name)
    }

    /// A supervisor with an empty pool.
    pub fn with() -> (manager: Self)
        ensures
            manager.wf(),
            forall|name: Seq<char>| manager.runner(name) is None,
    {
        BotManager { bot_pool: Table::new() }
    }

    /// The number of workers.
    pub fn len(&self) -> (n: usize)
        ensures
            n == self.bot_pool.entries@.len(),
    {
        self.bot_pool.len()
    }

    /// The worker of that name.
    pub fn get(&self, name: &str) -> (found: Option<&BotRunner>)
        requires
            self.wf(),
        ensures
            match found {
                Some(r) => self.runner(name@) == Some(*r),
                None => self.runner(name@) is None,
            },
    {
        self.bot_pool.get(name)
    }

    /// The worker that a tick starts from nothing: no thread runs yet, and
    /// its actor is fed with the record's script.
    pub fn create_bot_runner(bi: &BotInstance) -> (runner: BotRunner)
        ensures
            runner.info.name@ == bi.name@,
            runner.script@ == bi.script@,
            runner.notificator == NotificatorThread::Running(None),
            runner.thread is None,
    {
        BotRunner {
            info: BotInfo { name: bi.name.clone() },
            script: bi.script.clone(),
            notificator: NotificatorThread::Running(None),
            thread: None,
        }
    }

    /// One reconciliation step for one desired instance. A set restart flag
    /// discards the current worker, whatever its state. An instance without
    /// a worker gets a fresh one. A dispatch thread found dead is replaced,
    /// a notification thread that failed is replaced, one that ended without
    /// an error is never started again. The pool then holds the worker as it
    /// stands once the host has carried out the plan; no other worker is
    /// touched.
    pub fn dispatch(&mut self, bi: &BotInstance, health: WorkerHealth) -> (plan: DispatchPlan)
        requires
            old(self).wf(),
        ensures
            final(self).wf(),
            plan == plan_for(old(self).runner(bi.name@), bi.restart_flag, health),
            final(self).runner(bi.name@) matches Some(next) && is_runner_after(
                next,
                old(self).runner(bi.name@),
                *bi,
                health,
            ),
            forall|other: Seq<char>|
                other != bi.name@ ==> final(self).runner(other) == old(self).runner(other),
    {
        let current = self.bot_pool.remove(bi.name.as_str());
        let existed = current.is_some();
        let found = match &current {
            None => InstanceState::Absent,
            Some(r) => if bi.restart_flag {
                InstanceState::ReloadRestart
            } else if r.thread.is_none() {
                InstanceState::Starting
            } else if health.dispatch.is_some() {
                InstanceState::CrashedRestart
            } else {
                InstanceState::Running
            },
        };
        let kept = if bi.restart_flag {
            None
        } else {
            current
        };
        let (plan, next) = match kept {
            None => {
                // removing handler to force restart, or start, if not started
                let fresh = Self::create_bot_runner(bi);
                let plan = DispatchPlan {
                    found,
                    teardown: existed,
                    create: true,
                    dispatch_exit: None,
                    spawn_dispatch: true,
                    notificator_exit: None,
                    spawn_notificator: true,
                };
                let next = BotRunner {
                    info: fresh.info,
                    script: fresh.script,
                    notificator: NotificatorThread::Running(Some(BotThread {  })),
                    thread: Some(BotThread {  }),
                };
                (plan, next)
            },
            Some(runner) => {
                let thread = clear_finished_thread(runner.thread, health.dispatch);
                let notificator = check_notificator_done(runner.notificator, health.notificator);
                let plan = DispatchPlan {
                    found,
                    teardown: false,
                    create: false,
                    dispatch_exit: if runner.thread.is_some() {
                        health.dispatch
                    } else {
                        None
                    },
                    // checking if thread is running, otherwise start thread
                    spawn_dispatch: thread.is_none(),
                    notificator_exit: match runner.notificator {
                        NotificatorThread::Running(Some(_)) => health.notificator,
                        _ => None,
                    },
                    spawn_notificator: match notificator {
                        NotificatorThread::Running(None) => true,
                        _ => false,
                    },
                };
                let next = BotRunner {
                    info: runner.info,
                    script: runner.script,
                    notificator: match notificator {
                        NotificatorThread::Done => NotificatorThread::Done,
                        NotificatorThread::Running(_) => NotificatorThread::Running(
                            Some(BotThread {  }),
                        ),
                    },
                    thread: Some(BotThread {  }),
                };
                (plan, next)
            },
        };
        let _ = self.bot_pool.insert(bi.name.clone(), next);
        proof {
            lemma_names_carried(old(self).bot_pool, self.bot_pool, bi.name@);
        }
        plan
    }

    /// The worker of the plan could not be built (its script failed, the
    /// store was out of reach): the instance is left absent, so that the next
    /// tick tries again. No other worker is touched.
    pub fn creation_failed(&mut self, name: &str)
        requires
            old(self).wf(),
        ensures
            final(self).wf(),
            final(self).runner(name@) is None,
            forall|other: Seq<char>|
                other != name@ ==> final(self).runner(other) == old(self).runner(other),
    {
        let _ = self.bot_pool.remove(name);
        proof {
            lemma_names_carried(old(self).bot_pool, self.bot_pool, name@);
        }
    }

    /// The dispatch thread of the plan could not be started: its slot is
    /// empty again, so that the next tick starts it. Nothing else changes.
    pub fn dispatch_not_started(&mut self, name: &str)
        requires
            old(self).wf(),
        ensures
            final(self).wf(),
            match old(self).runner(name@) {
                Some(r) => final(self).runner(name@) == Some(
                    BotRunner { info: r.info, script: r.script, notificator: r.notificator, thread: None },
                ),
                None => final(self).runner(name@) is None,
            },
            forall|other: Seq<char>|
                other != name@ ==> final(self).runner(other) == old(self).runner(other),
    {
        match self.bot_pool.remove(name) {
            Some(r) => {
                let next = BotRunner {
                    info: r.info,
                    script: r.script,
                    notificator: r.notificator,
                    thread: None,
                };
                let _ = self.bot_pool.insert(next.info.name.clone(), next);
                proof {
                    assert(old(self).bot_pool.spec_get(name@) == Some(r));
                    assert(next.info.name@ == name@);
                    lemma_names_carried(old(self).bot_pool, self.bot_pool, name@);
                }
            },
            None => {
                proof {
                    lemma_names_carried(old(self).bot_pool, self.bot_pool, name@);
                }
            },
        }
    }

    /// The notification thread of the plan could not be started: its slot is
    /// empty again, so that the next tick starts it. A worker whose
    /// notifications are done stays so. Nothing else changes.
    pub fn notificator_not_started(&mut self, name: &str)
        requires
            old(self).wf(),
        ensures
            final(self).wf(),
            match old(self).runner(name@) {
                Some(r) => final(self).runner(name@) == Some(
                    BotRunner {
                        info: r.info,
                        script: r.script,
                        notificator: match r.notificator {
                            NotificatorThread::Done => NotificatorThread::Done,
                            NotificatorThread::Running(_) => NotificatorThread::Running(None),
                        },
                        thread: r.thread,
                    },
                ),
                None => final(self).runner(name@) is None,
            },
            forall|other: Seq<char>|
                other != name@ ==> final(self).runner(other) == old(self).runner(other),
    {
        match self.bot_pool.remove(name) {
            Some(r) => {
                let next = BotRunner {
                    info: r.info,
                    script: r.script,
                    notificator: match r.notificator {
                        NotificatorThread::Done => NotificatorThread::Done,
                        NotificatorThread::Running(_) => NotificatorThread::Running(None),
                    },
                    thread: r.thread,
                };
                let _ = self.bot_pool.insert(next.info.name.clone(), next);
                proof {
                    assert(old(self).bot_pool.spec_get(name@) == Some(r));
                    assert(next.info.name@ == name@);
                    lemma_names_carried(old(self).bot_pool, self.bot_pool, name@);
                }
            },
            None => {
                proof {
                    lemma_names_carried(old(self).bot_pool, self.bot_pool, name@);
                }
            },
        }
    }
}

/// A dispatch thread that has come to its end is seen by the next tick,
/// reported for the log, and replaced, while the worker and its actor stay.
pub proof fn law_crash_recovery(current: BotRunner, health: WorkerHealth)
    requires
        current.thread is Some,
        health.dispatch is Some,
    ensures
        ({
            let plan = plan_for(Some(current), false, health);
            &&& plan.found == InstanceState::CrashedRestart
            &&& plan.dispatch_exit == health.dispatch
            &&& plan.spawn_dispatch
            &&& !plan.teardown
            &&& !plan.create
        }),
{
}

/// A worker that a tick has left, with both its threads alive and no
/// restart asked for, is found running by the next tick, which leaves it
/// as it is and asks the host for nothing.
pub proof fn law_healthy_worker_stays(
    next: BotRunner,
    current: Option<BotRunner>,
    bi: BotInstance,
    health: WorkerHealth,
)
    requires
        is_runner_after(next, current, bi, health),
    ensures
        ({
            let healthy = WorkerHealth { dispatch: None, notificator: None };
            let plan = plan_for(Some(next), false, healthy);
            &&& plan.found == InstanceState::Running
            &&& !plan.teardown
            &&& !plan.create
            &&& !plan.spawn_dispatch
            &&& !plan.spawn_notificator
            &&& plan.dispatch_exit is None
            &&& plan.notificator_exit is None
            &&& is_runner_after(
                next,
                Some(next),
                BotInstance { restart_flag: false, ..bi },
                healthy,
            )
        }),
{
}

/// A set restart flag makes the tick discard the worker, whatever its state,
/// and build a fresh one, and the worker that the tick leaves carries the
/// record's script: no stale script stays loaded.
pub proof fn law_restart_flag(
    current: Option<BotRunner>,
    bi: BotInstance,
    health: WorkerHealth,
    next: BotRunner,
)
    requires
        bi.restart_flag,
        is_runner_after(next, current, bi, health),
    ensures
        plan_for(current, true, health).create,
        plan_for(current, true, health).teardown == (current is Some),
        plan_for(current, true, health).spawn_dispatch,
        plan_for(current, true, health).spawn_notificator,
        next.script@ == bi.script@,
        next.info.name@ == bi.name@,
{
}

} // verus!
