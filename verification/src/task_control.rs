use vstd::prelude::*;
use crate::jobs::JobKind;

verus! {

/// The three flags of a background task: whether one runs, whether it was asked to stop,
/// and whether it was asked to wait.
pub struct TaskFlags {
    pub active: bool,
    pub cancelled: bool,
    pub paused: bool,
}

/// The flags of a task that is not running.
pub open spec fn idle_flags() -> TaskFlags {
    TaskFlags { active: false, cancelled: false, paused: false }
}

/// What `start` leaves behind, and whether it succeeded.
pub open spec fn start_step(s: TaskFlags) -> (TaskFlags, bool) {
    if s.active {
        (s, false)
    } else {
        (TaskFlags { active: true, cancelled: false, paused: false }, true)
    }
}

pub open spec fn cancel_step(s: TaskFlags) -> TaskFlags {
    TaskFlags { cancelled: true, ..s }
}

pub open spec fn pause_step(s: TaskFlags) -> TaskFlags {
    TaskFlags { paused: true, ..s }
}

pub open spec fn resume_step(s: TaskFlags) -> TaskFlags {
    TaskFlags { paused: false, ..s }
}

/// Controls one background task (validation or review): at most one runs at a time, and
/// it can be cancelled, paused and resumed.
#[derive(Debug)]
pub struct TaskControl {
    active: bool,
    cancelled: bool,
    paused: bool,
}

impl View for TaskControl {
    type V = TaskFlags;

    closed spec fn view(&self) -> TaskFlags {
        TaskFlags { active: self.active, cancelled: self.cancelled, paused: self.paused }
    }
}

impl TaskControl {
    pub fn new() -> (r: Self)
        ensures
            r@ == idle_flags(),
    {
        TaskControl { active: false, cancelled: false, paused: false }
    }

    /// Claims the task slot. Fails, changing nothing, while a task is active; on success the
    /// new task starts neither cancelled nor paused.
    pub fn start(&mut self) -> (started: bool)
        ensures
            (final(self)@, started) == start_step(old(self)@),
    {
        if self.active {
            return false;
        }
        self.active = true;
        self.cancelled = false;
        self.paused = false;
        true
    }

    /// Releases the task slot and clears every request.
    pub fn finish(&mut self)
        ensures
            final(self)@ == idle_flags(),
    {
        self.active = false;
        self.cancelled = false;
        self.paused = false;
    }

    pub fn cancel(&mut self)
        ensures
            final(self)@ == cancel_step(old(self)@),
    {
        self.cancelled = true;
    }

    pub fn pause(&mut self)
        ensures
            final(self)@ == pause_step(old(self)@),
    {
        self.paused = true;
    }

    pub fn resume(&mut self)
        ensures
            final(self)@ == resume_step(old(self)@),
    {
        self.paused = false;
    }

    pub fn is_cancelled(&self) -> (r: bool)
        ensures
            r == self@.cancelled,
    {
        self.cancelled
    }

    pub fn is_paused(&self) -> (r: bool)
        ensures
            r == self@.paused,
    {
        self.paused
    }

    pub fn is_active(&self) -> (r: bool)
        ensures
            r == self@.active,
    {
        self.active
    }
}

/// Message when validation is cancelled with no task running.
pub open spec fn no_validation_message() -> Seq<char> {
    "当前没有正在运行的验证任务。"@
}

pub open spec fn no_review_message() -> Seq<char> {
    "当前没有正在运行的审查任务。"@
}

pub open spec fn no_paused_review_message() -> Seq<char> {
    "当前没有暂停的审查任务。"@
}

/// Why a job of kind `k` could not start: a task already holds the slot.
pub open spec fn busy_message(k: JobKind) -> Seq<char> {
    match k {
        JobKind::Validation => "验证任务已在运行中，请等待完成或终止后再试。"@,
        JobKind::Review => "任务已在运行中，请等待完成或终止后再试。"@,
    }
}

/// Claims the task slot for a job of kind `kind`; while a task is active it changes nothing
/// and gives the message that the job is refused with.
pub fn claim_task(task: &mut TaskControl, kind: JobKind) -> (r: Result<(), String>)
    ensures
        final(task)@ == start_step(old(task)@).0,
        r is Ok == start_step(old(task)@).1,
        r matches Err(e) ==> e@ == busy_message(kind),
{
    if task.start() {
        Ok(())
    } else {
        match kind {
            JobKind::Validation => Err(String::from_str("验证任务已在运行中，请等待完成或终止后再试。")),
            JobKind::Review => Err(String::from_str("任务已在运行中，请等待完成或终止后再试。")),
        }
    }
}

/// Asks the running validation to stop; an error when no task is active.
pub fn cancel_validation(task: &mut TaskControl) -> (r: Result<(), String>)
    ensures
        old(task)@.active ==> r is Ok && final(task)@ == cancel_step(old(task)@),
        !old(task)@.active ==> (r matches Err(e) && e@ == no_validation_message()),
        !old(task)@.active ==> final(task)@ == old(task)@,
{
    if task.is_active() {
        task.cancel();
        Ok(())
    } else {
        Err(String::from_str("当前没有正在运行的验证任务。"))
    }
}

/// Asks the running review to stop; an error when no task is active.
pub fn cancel_review(task: &mut TaskControl) -> (r: Result<(), String>)
    ensures
        old(task)@.active ==> r is Ok && final(task)@ == cancel_step(old(task)@),
        !old(task)@.active ==> (r matches Err(e) && e@ == no_review_message()),
        !old(task)@.active ==> final(task)@ == old(task)@,
{
    if task.is_active() {
        task.cancel();
        Ok(())
    } else {
        Err(String::from_str("当前没有正在运行的审查任务。"))
    }
}

/// Pauses the running review; an error unless a task is active and not yet paused.
pub fn pause_review(task: &mut TaskControl) -> (r: Result<(), String>)
    ensures
        old(task)@.active && !old(task)@.paused ==> r is Ok && final(task)@ == pause_step(
            old(task)@,
        ),
        !(old(task)@.active && !old(task)@.paused) ==> (r matches Err(e) && e@ == no_review_message()),
        !(old(task)@.active && !old(task)@.paused) ==> final(task)@ == old(task)@,
{
    if task.is_active() && !task.is_paused() {
        task.pause();
        Ok(())
    } else {
        Err(String::from_str("当前没有正在运行的审查任务。"))
    }
}

/// Resumes the paused review; an error unless a task is active and paused.
pub fn resume_review(task: &mut TaskControl) -> (r: Result<(), String>)
    ensures
        old(task)@.active && old(task)@.paused ==> r is Ok && final(task)@ == resume_step(
            old(task)@,
        ),
        !(old(task)@.active && old(task)@.paused) ==> (r matches Err(e) && e@ == no_paused_review_message()),
        !(old(task)@.active && old(task)@.paused) ==> final(task)@ == old(task)@,
{
    if task.is_active() && task.is_paused() {
        task.resume();
        Ok(())
    } else {
        Err(String::from_str("当前没有暂停的审查任务。"))
    }
}

// ---------------------------------------------------------------------------
// Laws
// ---------------------------------------------------------------------------

/// At most one task runs: while one is active, a second `start` fails and changes nothing.
pub proof fn law_start_is_exclusive(s: TaskFlags)
    ensures
        start_step(s).1 ==> !start_step(start_step(s).0).1,
        s.active ==> start_step(s) == (s, false),
{
}

/// A task that starts never inherits a cancel or pause request of an earlier one.
pub proof fn law_started_task_is_clean(s: TaskFlags)
    ensures
        start_step(s).1 ==> start_step(s).0 == (TaskFlags {
            active: true,
            cancelled: false,
            paused: false,
        }),
{
}

/// After `finish` a new task can always start.
pub proof fn law_finish_frees_slot()
    ensures
        start_step(idle_flags()).1,
{
}

/// Pausing then resuming leaves the task as it was, apart from the pause request.
pub proof fn law_pause_resume_round_trip(s: TaskFlags)
    ensures
        resume_step(pause_step(s)) == resume_step(s),
        pause_step(resume_step(s)) == pause_step(s),
        resume_step(pause_step(s)).active == s.active,
        resume_step(pause_step(s)).cancelled == s.cancelled,
{
}

/// Cancel, pause and resume never change whether a task is active.
pub proof fn law_requests_keep_activity(s: TaskFlags)
    ensures
        cancel_step(s).active == s.active,
        pause_step(s).active == s.active,
        resume_step(s).active == s.active,
        cancel_step(s).cancelled,
{
}

} // verus!
