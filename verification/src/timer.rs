//! The timer state machine: at most one run at a time, with its elapsed time
//! computed from a start instant plus previously accumulated seconds.
use vstd::prelude::*;

use crate::error::AppError;

verus! {

/// Cross-device identity of a timer run.
///
/// Every timer run gets a `session_id` that is stable across devices: the
/// device that started it stamps its own id/label as the origin, and any other
/// instance that adopts the run reuses the same triple. Once the run has been
/// published, `odoo_line_id` points at the timesheet line that mirrors it.
#[derive(Debug, Clone)]
pub struct SessionMeta {
    pub session_id: String,
    pub origin_device: String,
    pub origin_label: String,
    pub odoo_line_id: Option<i64>,
}

impl SessionMeta {
    /// A session that is not tracked across devices (sync disabled / offline start).
    pub fn local_only() -> (s: SessionMeta)
        ensures
            s.session_id@ == Seq::<char>::empty(),
            s.origin_device@ == Seq::<char>::empty(),
            s.origin_label@ == Seq::<char>::empty(),
            s.odoo_line_id is None,
    {
        SessionMeta {
            session_id: String::new(),
            origin_device: String::new(),
            origin_label: String::new(),
            odoo_line_id: None,
        }
    }
}

/// What the timer is doing. `start_time` is in nanoseconds since the Unix
/// epoch (UTC).
#[derive(Debug, Clone)]
pub enum TimerState {
    Idle,
    Running {
        task_id: i64,
        task_name: String,
        project_id: i64,
        project_name: String,
        start_time: i64,
        accumulated_secs: u64,
        session: SessionMeta,
    },
}

/// Returned after a successful `stop`.
#[derive(Debug, Clone)]
pub struct TimerResult {
    pub task_id: i64,
    pub task_name: String,
    pub project_id: i64,
    pub project_name: String,
    pub elapsed_secs: u64,
    pub session_id: String,
    pub odoo_line_id: Option<i64>,
}

/// Snapshot of the current timer state with a computed `elapsed_secs`.
#[derive(Debug, Clone)]
pub struct TimerStateInfo {
    pub is_running: bool,
    pub task_id: Option<i64>,
    pub task_name: Option<String>,
    pub project_id: Option<i64>,
    pub project_name: Option<String>,
    pub elapsed_secs: u64,
    /// Cross-device session id (empty when the run is not synced).
    pub session_id: String,
    /// Id of the device this run was started on (empty when not synced).
    pub origin_device: String,
    /// Human-readable label of that device, for "started on <X>" hints.
    pub origin_label: String,
}

/// Whole seconds from `start_ns` to `now_ns`, never negative.
pub open spec fn wall_secs(start_ns: i64, now_ns: i64) -> int {
    if now_ns > start_ns {
        (now_ns - start_ns) / 1_000_000_000
    } else {
        0
    }
}

/// Elapsed seconds of a run: what it had accumulated plus the wall time since
/// its start, saturating at `u64::MAX`.
pub open spec fn run_elapsed(accumulated: u64, start_ns: i64, now_ns: i64) -> u64 {
    let total = accumulated + wall_secs(start_ns, now_ns);
    if total > u64::MAX {
        u64::MAX
    } else {
        total as u64
    }
}

pub fn compute_elapsed(accumulated: u64, start_ns: i64, now_ns: i64) -> (res: u64)
    ensures
        res == run_elapsed(accumulated, start_ns, now_ns),
{
    let wall: u64 = if now_ns > start_ns {
        let diff: i128 = (now_ns as i128) - (start_ns as i128);
        (diff / 1_000_000_000) as u64
    } else {
        0
    };
    accumulated.saturating_add(wall)
}

/// `chrono::Utc::now().timestamp_nanos_opt()`: the wall clock in nanoseconds
/// since the Unix epoch, `None` past the year 2262. Nothing is promised about
/// the value: it is the clock.
#[verifier::external_body]
fn clock_now_nanos() -> Option<i64> {
    chrono::Utc::now().timestamp_nanos_opt()
}

/// The wall clock in nanoseconds since the Unix epoch; past what an `i64`
/// holds (the year 2262) it reads as the largest instant.
pub(crate) fn now_nanos() -> i64 {
    match clock_now_nanos() {
        Some(n) => n,
        None => i64::MAX,
    }
}

/// The timer. At most one run is tracked at a time.
pub struct TimerEngine {
    state: TimerState,
}

impl View for TimerEngine {
    type V = TimerState;

    closed spec fn view(&self) -> TimerState {
        self.state
    }
}

/// The result `stop` hands back for a running state at time `now_ns`.
pub open spec fn stop_result(s: TimerState, now_ns: i64) -> TimerResult
    recommends
        s is Running,
{
    match s {
        TimerState::Running {
            task_id,
            task_name,
            project_id,
            project_name,
            start_time,
            accumulated_secs,
            session,
        } => TimerResult {
            task_id,
            task_name,
            project_id,
            project_name,
            elapsed_secs: run_elapsed(accumulated_secs, start_time, now_ns),
            session_id: session.session_id,
            odoo_line_id: session.odoo_line_id,
        },
        TimerState::Idle => arbitrary(),
    }
}

/// The snapshot `get_state` hands back for state `s` at time `now_ns`.
pub open spec fn state_info(s: TimerState, now_ns: i64) -> TimerStateInfo {
    match s {
        TimerState::Idle => TimerStateInfo {
            is_running: false,
            task_id: None,
            task_name: None,
            project_id: None,
            project_name: None,
            elapsed_secs: 0,
            session_id: arbitrary(),
            origin_device: arbitrary(),
            origin_label: arbitrary(),
        },
        TimerState::Running {
            task_id,
            task_name,
            project_id,
            project_name,
            start_time,
            accumulated_secs,
            session,
        } => TimerStateInfo {
            is_running: true,
            task_id: Some(task_id),
            task_name: Some(task_name),
            project_id: Some(project_id),
            project_name: Some(project_name),
            elapsed_secs: run_elapsed(accumulated_secs, start_time, now_ns),
            session_id: session.session_id,
            origin_device: session.origin_device,
            origin_label: session.origin_label,
        },
    }
}

/// `info` is the snapshot of `s` at `now_ns` (strings of an idle snapshot are empty).
pub open spec fn is_state_info(info: TimerStateInfo, s: TimerState, now_ns: i64) -> bool {
    match s {
        TimerState::Idle => {
            &&& !info.is_running
            &&& info.task_id is None
            &&& info.task_name is None
            &&& info.project_id is None
            &&& info.project_name is None
            &&& info.elapsed_secs == 0
            &&& info.session_id@ == Seq::<char>::empty()
            &&& info.origin_device@ == Seq::<char>::empty()
            &&& info.origin_label@ == Seq::<char>::empty()
        },
        TimerState::Running { .. } => info == state_info(s, now_ns),
    }
}

impl TimerEngine {
    pub fn new() -> (e: TimerEngine)
        ensures
            e@ is Idle,
    {
        TimerEngine { state: TimerState::Idle }
    }

    pub open spec fn spec_is_running(&self) -> bool {
        self@ is Running
    }

    #[verifier::when_used_as_spec(spec_is_running)]
    pub fn is_running(&self) -> (b: bool)
        ensures
            b == (self@ is Running),
    {
        match self.state {
            TimerState::Running { .. } => true,
            TimerState::Idle => false,
        }
    }

    /// Start tracking time for a task at `now_ns`. Errors if a timer is already running.
    pub fn start_at(
        &mut self,
        task_id: i64,
        task_name: String,
        project_id: i64,
        project_name: String,
        session: SessionMeta,
        now_ns: i64,
    ) -> (res: Result<(), AppError>)
        ensures
            old(self)@ is Running ==> res is Err && res->Err_0 is Timer && res->Err_0.text() == "Timer is already running"@
                && final(self)@ == old(self)@,
            old(self)@ is Idle ==> res is Ok && final(self)@ == (TimerState::Running {
                task_id,
                task_name,
                project_id,
                project_name,
                start_time: now_ns,
                accumulated_secs: 0,
                session,
            }),
    {
        if self.is_running() {
            return Err(AppError::Timer("Timer is already running".to_string()));
        }
        self.state = TimerState::Running {
            task_id,
            task_name,
            project_id,
            project_name,
            start_time: now_ns,
            accumulated_secs: 0,
            session,
        };
        Ok(())
    }

    /// Start tracking time for a task now. Errors if a timer is already running.
    pub fn start(
        &mut self,
        task_id: i64,
        task_name: String,
        project_id: i64,
        project_name: String,
        session: SessionMeta,
    ) -> (res: Result<(), AppError>)
        ensures
            old(self)@ is Running ==> res is Err && res->Err_0 is Timer && res->Err_0.text() == "Timer is already running"@
                && final(self)@ == old(self)@,
            old(self)@ is Idle ==> res is Ok && exists|now_ns: i64|
                final(self)@ == (TimerState::Running {
                    task_id,
                    task_name,
                    project_id,
                    project_name,
                    start_time: now_ns,
                    accumulated_secs: 0,
                    session,
                }),
    {
        let now = now_nanos();
        self.start_at(task_id, task_name, project_id, project_name, session, now)
    }

    /// Stop the timer at `now_ns` and return the result. Errors if idle.
    pub fn stop_at(&mut self, now_ns: i64) -> (res: Result<TimerResult, AppError>)
        ensures
            final(self)@ is Idle,
            old(self)@ is Idle ==> res is Err && res->Err_0 is Timer && res->Err_0.text() == "No timer is running"@,
            old(self)@ is Running ==> res == Ok::<TimerResult, AppError>(stop_result(old(self)@, now_ns)),
    {
        let mut prev = TimerState::Idle;
        std::mem::swap(&mut prev, &mut self.state);
        match prev {
            TimerState::Running {
                task_id,
                task_name,
                project_id,
                project_name,
                start_time,
                accumulated_secs,
                session,
            } => {
                let elapsed_secs = compute_elapsed(accumulated_secs, start_time, now_ns);
                Ok(TimerResult {
                    task_id,
                    task_name,
                    project_id,
                    project_name,
                    elapsed_secs,
                    session_id: session.session_id,
                    odoo_line_id: session.odoo_line_id,
                })
            },
            TimerState::Idle => Err(AppError::Timer("No timer is running".to_string())),
        }
    }

    /// Stop the timer now and return the result. Errors if idle.
    pub fn stop(&mut self) -> (res: Result<TimerResult, AppError>)
        ensures
            final(self)@ is Idle,
            old(self)@ is Idle ==> res is Err && res->Err_0 is Timer && res->Err_0.text() == "No timer is running"@,
            old(self)@ is Running ==> exists|now_ns: i64|
                res == Ok::<TimerResult, AppError>(stop_result(old(self)@, now_ns)),
    {
        let now = now_nanos();
        self.stop_at(now)
    }

    /// Discard the running timer without producing a result. Errors if idle.
    pub fn discard(&mut self) -> (res: Result<(), AppError>)
        ensures
            final(self)@ is Idle,
            old(self)@ is Idle ==> res is Err && res->Err_0 is Timer && res->Err_0.text() == "No timer is running"@,
            old(self)@ is Running ==> res is Ok,
    {
        if !self.is_running() {
            return Err(AppError::Timer("No timer is running".to_string()));
        }
        self.state = TimerState::Idle;
        Ok(())
    }

    /// Snapshot of the state at `now_ns`.
    pub fn get_state_at(&self, now_ns: i64) -> (info: TimerStateInfo)
        ensures
            is_state_info(info, self@, now_ns),
    {
        match &self.state {
            TimerState::Idle => TimerStateInfo {
                is_running: false,
                task_id: None,
                task_name: None,
                project_id: None,
                project_name: None,
                elapsed_secs: 0,
                session_id: String::new(),
                origin_device: String::new(),
                origin_label: String::new(),
            },
            TimerState::Running {
                task_id,
                task_name,
                project_id,
                project_name,
                start_time,
                accumulated_secs,
                session,
            } => TimerStateInfo {
                is_running: true,
                task_id: Some(*task_id),
                task_name: Some(task_name.clone()),
                project_id: Some(*project_id),
                project_name: Some(project_name.clone()),
                elapsed_secs: compute_elapsed(*accumulated_secs, *start_time, now_ns),
                session_id: session.session_id.clone(),
                origin_device: session.origin_device.clone(),
                origin_label: session.origin_label.clone(),
            },
        }
    }

    /// Snapshot of the current state with a computed `elapsed_secs`.
    pub fn get_state(&self) -> (info: TimerStateInfo)
        ensures
            exists|now_ns: i64| is_state_info(info, self@, now_ns),
    {
        let now = now_nanos();
        self.get_state_at(now)
    }

    /// Restore a previously persisted run (crash recovery), or adopt a run that
    /// another device started: unlike `start`, this overwrites whatever the
    /// engine currently holds.
    pub fn restore(
        &mut self,
        task_id: i64,
        task_name: String,
        project_id: i64,
        project_name: String,
        start_time: i64,
        accumulated_secs: u64,
        session: SessionMeta,
    )
        ensures
            final(self)@ == (TimerState::Running {
                task_id,
                task_name,
                project_id,
                project_name,
                start_time,
                accumulated_secs,
                session,
            }),
    {
        self.state = TimerState::Running {
            task_id,
            task_name,
            project_id,
            project_name,
            start_time,
            accumulated_secs,
            session,
        };
    }

    /// Attach the Odoo line that now mirrors the running session. No-op (and
    /// `false`) when the timer moved on to a different session meanwhile.
    pub fn attach_odoo_line(&mut self, session_id: &str, line_id: i64) -> (attached: bool)
        ensures
            attached == (old(self)@ matches TimerState::Running { session, .. } && session.session_id@ == session_id@),
            attached ==> final(self)@ == (match old(self)@ {
                TimerState::Running { task_id, task_name, project_id, project_name, start_time, accumulated_secs, session } =>
                    TimerState::Running {
                        task_id, task_name, project_id, project_name, start_time, accumulated_secs,
                        session: SessionMeta { odoo_line_id: Some(line_id), ..session },
                    },
                TimerState::Idle => TimerState::Idle,
            }),
            !attached ==> final(self)@ == old(self)@,
    {
        match &mut self.state {
            TimerState::Running { session, .. } => {
                if str_eq(session.session_id.as_str(), session_id) {
                    session.odoo_line_id = Some(line_id);
                    true
                } else {
                    false
                }
            },
            TimerState::Idle => false,
        }
    }

    /// Session metadata of the running timer, if any.
    pub fn session(&self) -> (res: Option<&SessionMeta>)
        ensures
            match self@ {
                TimerState::Running { session, .. } => res == Some(&session),
                TimerState::Idle => res is None,
            },
    {
        match &self.state {
            TimerState::Running { session, .. } => Some(session),
            TimerState::Idle => None,
        }
    }

    /// Borrow the raw state (used by the persistence layer).
    pub fn raw_state(&self) -> (res: &TimerState)
        ensures
            *res == self@,
    {
        &self.state
    }
}

impl Default for TimerEngine {
    fn default() -> (e: TimerEngine)
        ensures
            e@ is Idle,
    {
        TimerEngine::new()
    }
}

/// Character-wise equality of two string slices.
pub fn str_eq(a: &str, b: &str) -> (res: bool)
    ensures
        res == (a@ == b@),
{
    let x = crate::text::to_chars(a);
    let y = crate::text::to_chars(b);
    crate::text::chars_eq(x.as_slice(), y.as_slice())
}

} // verus!
