//! Session state and the maintenance job queue. Performing a job is the
//! caller's concern; here live only the data and the decisions.

use crate::strutil::{replace_seq, str_replace};
use crate::util::fresh_event_id;
use crate::value::{value_wf, Value};
use vstd::prelude::*;
use vstd::string::StringExecFns;

verus! {

/// One user's session, keyed externally.
#[derive(Clone, Debug)]
pub struct Session {
    pub user_id: String,
    pub bot_id: String,
    pub state: String,
}

impl Session {
    pub fn new(user_id: String, bot_id: String, state: String) -> (r: Session)
        ensures
            r.user_id == user_id,
            r.bot_id == bot_id,
            r.state == state,
    {
        Session { user_id, bot_id, state }
    }
}

/// Instantiates a session key template: every occurrence of the user-id
/// placeholder is replaced by the user's id.
pub fn session_key_from_template(template: &str, user_id: &str) -> (r: String)
    ensures
        r@ == replace_seq(template@, "{user_id}"@, user_id@),
{
    str_replace(template, "{user_id}", user_id)
}

/// Moves a session to a new state; nothing else changes.
pub fn update_state(session: &mut Session, new_state: &str)
    ensures
        final(session).state@ == new_state@,
        final(session).user_id == old(session).user_id,
        final(session).bot_id == old(session).bot_id,
{
    session.state = String::from_str(new_state);
}

/// Wraps a payload in the standard reply envelope: an object carrying
/// the payload under its key and the status text, keys in canonical
/// order.
pub fn json_ok(status: &str, payload: Value) -> (r: Value)
    ensures
        match r {
            Value::Obj(ps) => {
                &&& ps@.len() == 2
                &&& ps@[0].0@ == "payload"@
                &&& ps@[0].1 == payload
                &&& ps@[1].0@ == "status"@
                &&& (ps@[1].1 matches Value::Str(s) && s@ == status@)
            },
            _ => false,
        },
        value_wf(payload) ==> value_wf(r),
{
    let mut pairs: Vec<(String, Value)> = Vec::new();
    pairs.push((String::from_str("payload"), payload));
    pairs.push((String::from_str("status"), Value::Str(String::from_str(status))));
    let r = Value::Obj(pairs);
    proof {
        reveal_strlit("payload");
        reveal_strlit("status");
        match &r {
            Value::Obj(ps) => {
                assert(ps@[0].0@[0] == 'p' && ps@[1].0@[0] == 's');
                assert(crate::value::seq_lt(ps@[0].0@, ps@[1].0@));
                assert(crate::value::keys_sorted(ps@));
                if value_wf(ps@[0].1) {
                    assert(crate::value::value_wf(ps@[1].1));
                    assert(ps@.skip(1)[0] == ps@[1]);
                    assert(ps@.skip(1).skip(1) =~= Seq::<(String, Value)>::empty());
                    assert(crate::value::all_pairs_wf(ps@.skip(1).skip(1)));
                    assert(crate::value::all_pairs_wf(ps@.skip(1)));
                    assert(crate::value::all_pairs_wf(ps@));
                }
            },
            _ => {},
        }
    }
    r
}

/// The kinds of maintenance work the scheduler accepts.
#[derive(Clone, Copy, Debug, PartialEq, Eq, Structural)]
pub enum JobKind {
    GitMaintenance,
    EcoScan,
    AuditLineage,
}

/// One queued job with its payload.
#[derive(Debug)]
pub struct Job {
    pub id: String,
    pub kind: JobKind,
    pub payload: Value,
}

impl Job {
    /// A fresh job with a unique id.
    pub fn new(kind: JobKind, payload: Value) -> (r: Job)
        ensures
            r.kind == kind,
            r.payload == payload,
            r.id@.len() == 36,
    {
        Job { id: fresh_event_id(), kind, payload }
    }
}

/// A first-in, first-out job queue.
#[derive(Debug)]
pub struct JobQueue {
    pub jobs: Vec<Job>,
}

impl Default for JobQueue {
    /// An empty queue.
    fn default() -> (r: JobQueue)
        ensures
            r.jobs@.len() == 0,
    {
        JobQueue { jobs: Vec::new() }
    }
}

impl JobQueue {
    /// Enqueues at the back.
    pub fn push(&mut self, job: Job)
        ensures
            final(self).jobs@ == old(self).jobs@.push(job),
    {
        self.jobs.push(job);
    }

    /// Dequeues from the front; `None` on an empty queue.
    pub fn pop(&mut self) -> (r: Option<Job>)
        ensures
            old(self).jobs@.len() == 0 ==> (r is None && final(self).jobs@ == old(self).jobs@),
            old(self).jobs@.len() > 0 ==> (r matches Some(j) && j == old(self).jobs@[0] && final(self).jobs@ == old(self).jobs@.skip(1)),
    {
        if self.jobs.len() == 0 {
            return None;
        }
        let j = self.jobs.remove(0);
        proof {
            assert(final(self).jobs@ =~= old(self).jobs@.skip(1));
        }
        Some(j)
    }
}

/// A named worker. Executing a job is outside work; the worker here only
/// carries identity.
#[derive(Clone, Debug)]
pub struct Worker {
    pub name: String,
}

impl Worker {
    pub fn new(name: &str) -> (r: Worker)
        ensures
            r.name@ == name@,
    {
        Worker { name: String::from_str(name) }
    }
}

/// The maintenance scheduler: a queue and the worker that drains it.
pub struct Scheduler {
    pub queue: JobQueue,
    pub worker: Worker,
}

impl Scheduler {
    pub fn new(worker_name: &str) -> (r: Scheduler)
        ensures
            r.queue.jobs@.len() == 0,
            r.worker.name@ == worker_name@,
    {
        Scheduler { queue: JobQueue::default(), worker: Worker::new(worker_name) }
    }

    /// Queues one maintenance job with the given payload.
    pub fn enqueue_git_maintenance(&mut self, payload: Value)
        ensures
            final(self).queue.jobs@.len() == old(self).queue.jobs@.len() + 1,
            final(self).queue.jobs@.last().kind == JobKind::GitMaintenance,
            final(self).queue.jobs@.last().payload == payload,
            final(self).queue.jobs@.take(old(self).queue.jobs@.len() as int) == old(self).queue.jobs@,
            final(self).worker == old(self).worker,
    {
        let job = Job::new(JobKind::GitMaintenance, payload);
        let ghost before = self.queue.jobs@;
        self.queue.push(job);
        proof {
            assert(final(self).queue.jobs@.take(before.len() as int) =~= before);
        }
    }

    /// Takes the next job off the queue, for the caller to perform.
    pub fn next_job(&mut self) -> (r: Option<Job>)
        ensures
            old(self).queue.jobs@.len() == 0 ==> r is None,
            old(self).queue.jobs@.len() > 0 ==> (r matches Some(j) && j == old(self).queue.jobs@[0] && final(self).queue.jobs@ == old(self).queue.jobs@.skip(1)),
    {
        self.queue.pop()
    }
}

} // verus!
