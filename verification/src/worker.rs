//! The channel worker actor's retry and dead-letter policy.

use vstd::prelude::*;
use crate::channel::NotificationStatus;
use crate::errors::NotiDeliverError;
use crate::job::{spec_job_json, JobDescV, NotificationDeQueue};
use crate::json::spec_ser;
use crate::store::{spec_apply_update, spec_queue_of, NotificationRepo, RedisRepository};

verus! {

/// The retry cap: a job is attempted at most this many times.
pub const RETRY_LIMIT: u8 = 3;

/// The suffix of the dead-letter queue's key.
pub open spec fn spec_failed_key(key: Seq<char>) -> Seq<char> {
    key + "_failed"@
}

/// The dead-letter key for a main queue key.
pub fn failed_key(key: &str) -> (r: String)
    ensures
        r@ == spec_failed_key(key@),
{
    String::from_str(key).concat("_failed")
}

/// The two keys never collide.
pub proof fn lemma_failed_key_distinct(key: Seq<char>)
    ensures
        spec_failed_key(key) != key,
{
    reveal_strlit("_failed");
    assert(spec_failed_key(key).len() == key.len() + 7);
}

/// A job after one more failed attempt.
pub open spec fn spec_bump(d: JobDescV) -> JobDescV {
    JobDescV { retry_count: d.retry_count + 1, ..d }
}

/// Whether a job that just failed goes back to the main queue.
pub open spec fn spec_requeues(d: JobDescV) -> bool {
    d.retry_count + 1 < RETRY_LIMIT
}

/// An error no retry can mend: the job's own shape was refused. Everything
/// else — transport trouble, provider refusals, database trouble — is
/// treated as transient.
pub open spec fn spec_terminal_error(e: NotiDeliverError) -> bool {
    e == NotiDeliverError::JsonParseError
}

/// What the actor did with a failed job.
pub enum RetryDecision {
    /// The job went back to the tail of the main queue.
    Requeue(NotificationDeQueue),
    /// The job went to the dead-letter queue and its row was marked failed.
    DeadLetter(NotificationDeQueue),
}

/// Wraps one channel sender with the retry policy.
pub struct NotificationWorkerActor {}

impl NotificationWorkerActor {
    pub fn new() -> (r: NotificationWorkerActor) {
        NotificationWorkerActor {}
    }

    /// Carries a failed send through. A terminal error sends the job, as it
    /// stands, straight to the dead-letter queue and marks the row failed:
    /// retrying a job whose own shape was refused would only rotate it
    /// through the queue. On a transient error the retry counter is bumped;
    /// below the cap the job goes back to the tail of the main queue, at
    /// the cap it goes to the dead-letter queue and the row is marked
    /// failed.
    pub fn handle_failure(
        &self,
        n: NotificationDeQueue,
        err: NotiDeliverError,
        queue_key: &str,
        redis: &mut RedisRepository,
        repo: &mut NotificationRepo,
    ) -> (r: RetryDecision)
        requires
            old(repo).wf(),
            n@.retry_count < 255,
        ensures
            final(repo).wf(),
            match r {
                RetryDecision::Requeue(j) => {
                    &&& !spec_terminal_error(err)
                    &&& spec_requeues(n@)
                    &&& j@ == spec_bump(n@)
                    &&& spec_queue_of(final(redis)@, queue_key@) == spec_queue_of(
                        old(redis)@,
                        queue_key@,
                    ).push(spec_ser(spec_job_json(j@, true)))
                    &&& (forall|k2: Seq<char>|
                        k2 != queue_key@ ==> spec_queue_of(final(redis)@, k2) == spec_queue_of(
                            old(redis)@,
                            k2,
                        ))
                    &&& final(repo)@ == old(repo)@
                },
                RetryDecision::DeadLetter(j) => {
                    &&& (spec_terminal_error(err) || !spec_requeues(n@))
                    &&& j@ == (if spec_terminal_error(err) {
                        n@
                    } else {
                        spec_bump(n@)
                    })
                    &&& spec_queue_of(final(redis)@, spec_failed_key(queue_key@))
                        == spec_queue_of(old(redis)@, spec_failed_key(queue_key@)).push(
                        spec_ser(spec_job_json(j@, true)),
                    )
                    &&& (forall|k2: Seq<char>|
                        k2 != spec_failed_key(queue_key@) ==> spec_queue_of(final(redis)@, k2)
                            == spec_queue_of(old(redis)@, k2))
                    &&& final(repo)@ == spec_apply_update(
                        old(repo)@,
                        n@.notification_id,
                        NotificationStatus::Failed,
                    )
                },
            },
    {
        if err == NotiDeliverError::JsonParseError {
            let wire = crate::json::to_json_string(&n.to_json());
            let fk = failed_key(queue_key);
            redis.push_to_queue(fk.as_str(), wire.as_str());
            repo.update_notification_status(n.notification_id.as_str(), NotificationStatus::Failed);
            return RetryDecision::DeadLetter(n);
        }
        let mut job = n;
        job.retry_count = job.retry_count + 1;
        let wire = crate::json::to_json_string(&job.to_json());
        if job.retry_count < RETRY_LIMIT {
            redis.push_to_queue(queue_key, wire.as_str());
            RetryDecision::Requeue(job)
        } else {
            let fk = failed_key(queue_key);
            redis.push_to_queue(fk.as_str(), wire.as_str());
            repo.update_notification_status(job.notification_id.as_str(), NotificationStatus::Failed);
            proof {
                assert(job@.notification_id == n@.notification_id);
            }
            RetryDecision::DeadLetter(job)
        }
    }
}

/// Law: retry counters stay within the cap. A main-queue job carries a count
/// of at most two; after a transient failure it is re-enqueued with a count
/// of at most two, or dead-lettered carrying exactly the cap; a terminal
/// failure dead-letters it with its count unchanged.
pub proof fn lemma_retry_bound(d: JobDescV)
    requires
        d.retry_count <= 2,
    ensures
        spec_bump(d).retry_count <= RETRY_LIMIT,
        spec_requeues(d) ==> spec_bump(d).retry_count <= 2,
        !spec_requeues(d) ==> spec_bump(d).retry_count == RETRY_LIMIT,
{
}

} // verus!
