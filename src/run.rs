use vstd::prelude::*;

use crate::job::{
    build_at, joined_or_error, resolve, string_result_view, BuildView, Job, JobBuild,
    JobView, LocatorError,
};
use crate::text::{decimal, decimal_string};

verus! {

/// The most queue polls that one run makes.
pub const MAX_POLLS: u64 = 9;

/// Why a trigger request did not yield a queue item.
#[derive(Debug, Clone, Copy, PartialEq, Eq, Structural)]
pub enum TriggerFault {
    /// The server answered with a status other than 201 Created.
    UnexpectedResponse,
    /// The server answered 201 but named no queue item in `Location`.
    MissingLocation,
}

pub open spec fn trigger_outcome(status: u16, location: Option<Seq<char>>) -> Result<Seq<char>, TriggerFault> {
    if status != 201 {
        Err(TriggerFault::UnexpectedResponse)
    } else {
        match location {
            Some(l) => Ok(l),
            None => Err(TriggerFault::MissingLocation),
        }
    }
}

/// The queue item that a trigger response names: only a 201 with a
/// `Location` header names one.
pub fn queue_location(status: u16, location: Option<String>) -> (r: Result<String, TriggerFault>)
    ensures
        match r {
            Ok(l) => trigger_outcome(status, match location {
                Some(s) => Some(s@),
                None => None,
            }) == Ok::<Seq<char>, TriggerFault>(l@),
            Err(f) => trigger_outcome(status, match location {
                Some(s) => Some(s@),
                None => None,
            }) == Err::<Seq<char>, TriggerFault>(f),
        },
{
    if status != 201 {
        return Err(TriggerFault::UnexpectedResponse);
    }
    match location {
        Some(l) => Ok(l),
        None => Err(TriggerFault::MissingLocation),
    }
}

/// The URL of the JSON form of the queue item at `location`.
pub fn queue_item_path(location: &str) -> (r: Result<String, LocatorError>)
    ensures
        string_result_view(r) == joined_or_error(location@, "api/json"@),
{
    resolve(location, "api/json")
}

/// How long to back off before poll `attempt + 1`, in seconds: linear in the
/// attempt number.
pub fn backoff_secs(attempt: u64) -> (r: u64)
    ensures
        r == attempt,
{
    attempt
}

/// The executable that a queue item has once scheduling completes.
#[derive(Debug)]
pub struct Executable {
    pub number: u32,
    pub url: Option<String>,
}

/// What a poll of a queue item shows.
#[derive(Debug)]
pub struct QueueItem {
    /// Why the item still waits.
    pub why: Option<String>,
    /// When the reason may resolve, in milliseconds since the epoch.
    pub timestamp: Option<u64>,
    /// The name of the queued task.
    pub task_name: Option<String>,
    pub executable: Option<Executable>,
}

/// What to do after a poll.
#[derive(Debug)]
pub enum PollAction {
    /// Sleep this many milliseconds, until the server's estimate, then poll again.
    Wait(u64),
    /// Sleep this many seconds, then poll again.
    Backoff(u64),
    /// The item became this build: tail it.
    Tail(JobBuild),
    /// The item became a build that cannot be located.
    Fail(LocatorError),
}

/// The meaning of a `PollAction`.
pub enum PollPlan {
    Wait(u64),
    Backoff(u64),
    Tail(BuildView),
    Fail(LocatorError),
}

pub open spec fn plan_of(a: PollAction) -> PollPlan {
    match a {
        PollAction::Wait(ms) => PollPlan::Wait(ms),
        PollAction::Backoff(s) => PollPlan::Backoff(s),
        PollAction::Tail(b) => PollPlan::Tail(b@),
        PollAction::Fail(e) => PollPlan::Fail(e),
    }
}

/// Whether the item gives a reason to wait with a time still ahead of `now`.
pub open spec fn waits_for_estimate(item: QueueItem, now: u64) -> bool {
    item.why is Some && item.timestamp is Some && item.timestamp->0 > now
}

/// Whether the item names its task and its executable.
pub open spec fn resolved(item: QueueItem) -> bool {
    item.task_name is Some && item.executable is Some
}

/// The build that executable `e` of a run of `job` is: the one its URL
/// names, or else the build of `job` with its number.
pub open spec fn executable_build(job: JobView, e: Executable) -> Result<BuildView, LocatorError> {
    match e.url {
        Some(u) => build_at(u@),
        None => if e.number > 0 {
            Ok(BuildView { job, number: e.number })
        } else {
            Err(LocatorError::BadBuildNumber)
        },
    }
}

/// What poll number `attempt` (counted from 1) of a run of `job` decides
/// when it shows `item` at time `now` (milliseconds since the epoch).
pub open spec fn poll_plan(job: JobView, attempt: u64, item: QueueItem, now: u64) -> PollPlan {
    if waits_for_estimate(item, now) {
        PollPlan::Wait((item.timestamp->0 - now) as u64)
    } else if resolved(item) {
        match executable_build(job, item.executable->0) {
            Ok(b) => PollPlan::Tail(b),
            Err(e) => PollPlan::Fail(e),
        }
    } else {
        PollPlan::Backoff(attempt)
    }
}

/// What a poll that shows `item` reports to the user: the reason it waits,
/// and the hand-off to tailing once it resolved.
pub open spec fn poll_report(item: QueueItem, now: u64) -> Seq<Seq<char>> {
    let why = match item.why {
        Some(w) => seq![w@],
        None => seq![],
    };
    if !waits_for_estimate(item, now) && resolved(item) {
        why.push(
            "Tailing job "@ + item.task_name->0@ + " #"@ + decimal(item.executable->0.number as nat)
                + ":"@,
        )
    } else {
        why
    }
}

/// What one poll reports and decides.
#[derive(Debug)]
pub struct PollStep {
    pub report: Vec<String>,
    pub action: PollAction,
}

/// The state of waiting on one queue item: how many polls were made.
pub struct QueuePoller {
    attempts: u64,
}

impl View for QueuePoller {
    type V = u64;

    closed spec fn view(&self) -> u64 {
        self.attempts
    }
}

impl QueuePoller {
    /// No poll made yet.
    pub fn new() -> (r: QueuePoller)
        ensures
            r@ == 0,
    {
        QueuePoller { attempts: 0 }
    }

    /// How many polls were made.
    pub fn attempts(&self) -> (r: u64)
        ensures
            r == self@,
    {
        self.attempts
    }

    /// Whether another poll is allowed.
    pub fn may_poll(&self) -> (r: bool)
        ensures
            r == (self@ < MAX_POLLS),
    {
        self.attempts < MAX_POLLS
    }

    /// Takes in one poll of the queue item of a run of `job`, made at `now`.
    pub fn observe(&mut self, job: &Job, item: &QueueItem, now: u64) -> (r: PollStep)
        requires
            old(self)@ < MAX_POLLS,
        ensures
            final(self)@ == old(self)@ + 1,
            plan_of(r.action) == poll_plan(job@, final(self)@, *item, now),
            r.report@.map_values(|s: String| s@) == poll_report(*item, now),
    {
        self.attempts = self.attempts + 1;
        let mut report: Vec<String> = Vec::new();
        if let Some(w) = &item.why {
            report.push(w.clone());
        }
        assert(report@.map_values(|s: String| s@) =~= match item.why {
            Some(w) => seq![w@],
            None => seq![],
        });
        let waits = match (&item.why, item.timestamp) {
            (Some(_), Some(ts)) => ts > now,
            _ => false,
        };
        if waits {
            let ts = item.timestamp.unwrap();
            return PollStep { report, action: PollAction::Wait(ts - now) };
        }
        match (&item.task_name, &item.executable) {
            (Some(name), Some(e)) => {
                let mut line = "Tailing job ".to_owned();
                line.append(name.as_str());
                line.append(" #");
                let n = decimal_string(e.number);
                line.append(n.as_str());
                line.append(":");
                proof {
                    assert(report@.push(line).map_values(|s: String| s@) =~= report@.map_values(
                        |s: String| s@,
                    ).push(line@));
                }
                report.push(line);
                let action = match &e.url {
                    Some(u) => match JobBuild::parse(u.as_str()) {
                        Ok(b) => PollAction::Tail(b),
                        Err(x) => PollAction::Fail(x),
                    },
                    None => if e.number > 0 {
                        PollAction::Tail(JobBuild::of_job(job, e.number))
                    } else {
                        PollAction::Fail(LocatorError::BadBuildNumber)
                    },
                };
                PollStep { report, action }
            },
            _ => PollStep { report, action: PollAction::Backoff(backoff_secs(self.attempts)) },
        }
    }
}

} // verus!
