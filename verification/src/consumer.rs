//! The queue consumer: polls the main queue, dead-letters unusable values,
//! and routes readable jobs to their channel worker.

use vstd::prelude::*;
use crate::channel::{spec_channel_str, NotificationChannel, NotificationStatus};
use crate::job::{spec_decode_job, spec_opt_view, spec_str_field, JobDescV, NotificationDeQueue};
use crate::json::{
    obj_lookup, parse_json, spec_obj_get, spec_parse_text, str_eq, Json, JsonVal,
};
use crate::store::{spec_apply_update, spec_queue_of, NotificationRepo, RedisRepository};
use crate::worker::{failed_key, lemma_failed_key_distinct, spec_failed_key};

verus! {

/// What a queue value means as a job.
pub open spec fn spec_raw_job(raw: Seq<char>) -> Option<JobDescV> {
    match spec_parse_text(raw) {
        None => None,
        Some(v) => spec_decode_job(v),
    }
}

/// The id recoverable from a value that parses as JSON but not as a job.
pub open spec fn spec_poison_id(raw: Seq<char>) -> Option<Seq<char>> {
    match spec_parse_text(raw) {
        Some(JsonVal::Obj(ms)) => spec_str_field(spec_obj_get(ms, "notification_id"@)),
        _ => None,
    }
}

/// The channels a worker is registered for.
pub open spec fn spec_routable(ch: Seq<char>) -> bool {
    ch == "push"@ || ch == "email"@
}

/// The id whose row is marked failed when a value dead-letters.
pub open spec fn spec_dead_letter_id(raw: Seq<char>) -> Option<Seq<char>> {
    match spec_raw_job(raw) {
        Some(d) => Some(d.notification_id),
        None => spec_poison_id(raw),
    }
}

/// What one poll of the main queue did.
pub enum ConsumerAction {
    /// The queue was empty: idle for the backoff interval, then poll again.
    Idle,
    /// A readable job for a known channel, to be handed to that worker.
    Dispatch(NotificationChannel, NotificationDeQueue),
    /// The value was unusable or unroutable: it went to the dead-letter
    /// queue verbatim; when an id could be recovered, that row is now
    /// failed. Carries the recovered id.
    DeadLettered(Option<String>),
}

/// The status-query message answered by the worker.
pub struct GetWorkerStatus;

/// The long-lived consumer of the main queue.
pub struct QueueWorker {
    pub queue_key: String,
    pub running: bool,
}

impl QueueWorker {
    pub fn new(queue_key: String) -> (r: QueueWorker)
        ensures
            r.queue_key@ == queue_key@,
            r.running,
    {
        QueueWorker { queue_key, running: true }
    }

    /// Whether the polling loop is running.
    pub fn get_status(&self) -> (r: bool)
        ensures
            r == self.running,
    {
        self.running
    }

    /// Answers the status-query message.
    pub fn handle(&self, _msg: GetWorkerStatus) -> (r: bool)
        ensures
            r == self.running,
    {
        self.get_status()
    }

    /// One poll of the main queue. An empty queue asks for an idle backoff;
    /// a value that does not read back as a job, or names a channel without
    /// a worker, goes verbatim to the dead-letter queue and its row, when an
    /// id can be recovered, is marked failed; a readable job for a known
    /// channel is handed out for dispatch.
    pub fn process_notification(
        &self,
        redis: &mut RedisRepository,
        repo: &mut NotificationRepo,
    ) -> (r: ConsumerAction)
        requires
            old(repo).wf(),
            spec_queue_of(old(redis)@, self.queue_key@).len() > 0 ==> spec_queue_of(
                old(redis)@,
                self.queue_key@,
            )[0].len() < usize::MAX,
        ensures
            final(repo).wf(),
            spec_queue_of(old(redis)@, self.queue_key@).len() == 0 ==> r == ConsumerAction::Idle
                && final(redis)@ == old(redis)@ && final(repo)@ == old(repo)@,
            spec_queue_of(old(redis)@, self.queue_key@).len() > 0 ==> spec_queue_of(
                final(redis)@,
                self.queue_key@,
            ) == spec_queue_of(old(redis)@, self.queue_key@).skip(1),
            spec_queue_of(old(redis)@, self.queue_key@).len() > 0 ==> (forall|k2: Seq<char>|
                k2 != self.queue_key@ && k2 != spec_failed_key(self.queue_key@)
                    ==> spec_queue_of(final(redis)@, k2) == spec_queue_of(old(redis)@, k2)),
            ({
                let q = spec_queue_of(old(redis)@, self.queue_key@);
                q.len() > 0 && (spec_raw_job(q[0]) matches Some(d) && spec_routable(d.channel))
                    ==> (r matches ConsumerAction::Dispatch(c, j) && spec_raw_job(q[0]) == Some(
                    j@,
                ) && spec_channel_str(c) == j@.channel) && spec_queue_of(
                    final(redis)@,
                    spec_failed_key(self.queue_key@),
                ) == spec_queue_of(old(redis)@, spec_failed_key(self.queue_key@)) && final(repo)@
                    == old(repo)@
            }),
            ({
                let q = spec_queue_of(old(redis)@, self.queue_key@);
                q.len() > 0 && !(spec_raw_job(q[0]) matches Some(d) && spec_routable(d.channel))
                    ==> (r matches ConsumerAction::DeadLettered(oid) && spec_opt_view(oid)
                    == spec_dead_letter_id(q[0])) && spec_queue_of(
                    final(redis)@,
                    spec_failed_key(self.queue_key@),
                ) == spec_queue_of(old(redis)@, spec_failed_key(self.queue_key@)).push(q[0])
                    && final(repo)@ == (match spec_dead_letter_id(q[0]) {
                    Some(id) => spec_apply_update(old(repo)@, id, NotificationStatus::Failed),
                    None => old(repo)@,
                })
            }),
    {
        let popped = redis.pop_from_queue(self.queue_key.as_str());
        let raw = match popped {
            None => {
                return ConsumerAction::Idle;
            },
            Some(raw) => raw,
        };
        proof {
            lemma_failed_key_distinct(self.queue_key@);
        }
        let fk = failed_key(self.queue_key.as_str());
        match parse_json(raw.as_str()) {
            Some(v) => {
                match NotificationDeQueue::from_json(&v) {
                    Some(job) => {
                        if str_eq(job.channel.as_str(), "push") {
                            return ConsumerAction::Dispatch(NotificationChannel::Push, job);
                        }
                        if str_eq(job.channel.as_str(), "email") {
                            return ConsumerAction::Dispatch(NotificationChannel::Email, job);
                        }
                        redis.push_to_queue(fk.as_str(), raw.as_str());
                        repo.update_notification_status(
                            job.notification_id.as_str(),
                            NotificationStatus::Failed,
                        );
                        ConsumerAction::DeadLettered(Some(job.notification_id))
                    },
                    None => {
                        let oid: Option<String> = match &v {
                            Json::Obj(ms) => match obj_lookup(ms, "notification_id") {
                                Some(w) => match w {
                                    Json::Str(s) => Some(s.clone()),
                                    _ => None,
                                },
                                None => None,
                            },
                            _ => None,
                        };
                        redis.push_to_queue(fk.as_str(), raw.as_str());
                        match &oid {
                            Some(id) => {
                                repo.update_notification_status(
                                    id.as_str(),
                                    NotificationStatus::Failed,
                                );
                            },
                            None => {},
                        }
                        ConsumerAction::DeadLettered(oid)
                    },
                }
            },
            None => {
                redis.push_to_queue(fk.as_str(), raw.as_str());
                ConsumerAction::DeadLettered(None)
            },
        }
    }
}

/// Routes by channel name to the worker map, as the consumer does.
pub fn channel_of_str(ch: &str) -> (r: Option<NotificationChannel>)
    ensures
        match r {
            Some(c) => spec_channel_str(c) == ch@ && spec_routable(ch@),
            None => !spec_routable(ch@),
        },
{
    if str_eq(ch, "push") {
        Some(NotificationChannel::Push)
    } else if str_eq(ch, "email") {
        Some(NotificationChannel::Email)
    } else {
        None
    }
}

/// Answers `GET /worker/queue/status`.
pub struct WorkerController {}

impl WorkerController {
    /// The body of the status answer.
    pub fn status_message(running: bool) -> (r: &'static str)
        ensures
            r@ == if running {
                "Queue worker is running"@
            } else {
                "Queue worker stopped"@
            },
    {
        if running {
            "Queue worker is running"
        } else {
            "Queue worker stopped"
        }
    }
}

} // verus!
