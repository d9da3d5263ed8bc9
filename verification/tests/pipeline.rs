//! End-to-end scenarios: ingestion through delivery over the in-memory
//! stores, with the provider answers supplied as plain status codes.

use notify_core::cache::TokenManager;
use notify_core::channel::{NotificationChannel, NotificationStatus, PushRecipientType};
use notify_core::consumer::{ConsumerAction, QueueWorker};
use notify_core::email::{EmailStep, EmailWorker};
use notify_core::errors::{NotiDeliverError, NotiSrvError};
use notify_core::json::Json;
use notify_core::push::{PushStep, PushWorker};
use notify_core::service::{NotificationRequest, NotificationService};
use notify_core::store::{NotificationRepo, RedisRepository};
use notify_core::worker::{NotificationWorkerActor, RetryDecision};

const QUEUE_KEY: &str = "noti_queue";
const USER_ID: &str = "550e8400-e29b-41d4-a716-446655440000";

fn push_request(recipient: &str, title: &str, body: &str) -> NotificationRequest {
    NotificationRequest {
        user_id: String::from(USER_ID),
        recipient: String::from(recipient),
        recipient_type: Some(PushRecipientType::Token),
        sender: None,
        channel: NotificationChannel::Push,
        template_id: None,
        payload: Json::Obj(vec![
            (String::from("title"), Json::Str(String::from(title))),
            (String::from("body"), Json::Str(String::from(body))),
        ]),
    }
}

#[test]
fn happy_path_push() {
    let mut repo = NotificationRepo::new();
    let mut redis = RedisRepository::new();
    let service = NotificationService::new();
    let req = push_request("dev-abc", "Hi", "World");
    let resp = service
        .send(&mut repo, &mut redis, &Some(String::from(QUEUE_KEY)), &req)
        .expect("accepted");
    assert_eq!(resp.status, "queued");
    assert!(uuid::Uuid::parse_str(&resp.id).is_ok());
    assert_eq!(repo.len(), 1);
    assert_eq!(redis.queue_len(QUEUE_KEY), 1);
    assert_eq!(
        repo.get(&resp.id).expect("row").status,
        NotificationStatus::Pending
    );

    let worker = QueueWorker::new(String::from(QUEUE_KEY));
    let job = match worker.process_notification(&mut redis, &mut repo) {
        ConsumerAction::Dispatch(NotificationChannel::Push, job) => job,
        _ => panic!("expected a push dispatch"),
    };
    assert_eq!(job.retry_count, 0);

    let sender = PushWorker::new("demo-project");
    let request = sender.prepare(&job).expect("well-formed job");
    assert_eq!(
        request.url,
        "https://fcm.googleapis.com/v1/projects/demo-project/messages:send"
    );
    assert_eq!(
        request.body,
        r#"{"message":{"token":"dev-abc","notification":{"title":"Hi","body":"World"}}}"#
    );

    let step = sender.handle_response(Some(200), true, &job.notification_id, &mut repo);
    assert_eq!(step, PushStep::Sent);
    assert_eq!(
        repo.get(&resp.id).expect("row").status,
        NotificationStatus::Sent
    );
    assert_eq!(redis.queue_len(QUEUE_KEY), 0);
    assert_eq!(redis.queue_len("noti_queue_failed"), 0);
}

#[test]
fn token_refresh_on_unauthorized() {
    let mut repo = NotificationRepo::new();
    let mut redis = RedisRepository::new();
    let service = NotificationService::new();
    let req = push_request("dev-abc", "Hi", "World");
    let resp = service
        .send(&mut repo, &mut redis, &Some(String::from(QUEUE_KEY)), &req)
        .expect("accepted");

    let worker = QueueWorker::new(String::from(QUEUE_KEY));
    let job = match worker.process_notification(&mut redis, &mut repo) {
        ConsumerAction::Dispatch(_, job) => job,
        _ => panic!("expected a dispatch"),
    };

    let mut cache = TokenManager::new(String::from("T0"));
    assert_eq!(cache.get_token().expect("primed").as_str(), "T0");

    let sender = PushWorker::new("demo-project");
    let mut refreshes = 0;

    // First attempt: the provider answers 401.
    let step = sender.handle_response(Some(401), true, &job.notification_id, &mut repo);
    assert_eq!(step, PushStep::RefreshRetry);
    assert_eq!(
        repo.get(&resp.id).expect("row").status,
        NotificationStatus::Pending
    );
    cache.update_token(Ok(String::from("T1")));
    refreshes += 1;

    // Second attempt bears the fresh token and the provider answers 200.
    assert_eq!(cache.get_token().expect("token").as_str(), "T1");
    let step = sender.handle_response(Some(200), false, &job.notification_id, &mut repo);
    assert_eq!(step, PushStep::Sent);
    assert_eq!(refreshes, 1);
    assert_eq!(
        repo.get(&resp.id).expect("row").status,
        NotificationStatus::Sent
    );
}

#[test]
fn second_unauthorized_fails() {
    let mut repo = NotificationRepo::new();
    let mut redis = RedisRepository::new();
    let service = NotificationService::new();
    let req = push_request("dev-abc", "Hi", "World");
    let resp = service
        .send(&mut repo, &mut redis, &Some(String::from(QUEUE_KEY)), &req)
        .expect("accepted");
    let worker = QueueWorker::new(String::from(QUEUE_KEY));
    let job = match worker.process_notification(&mut redis, &mut repo) {
        ConsumerAction::Dispatch(_, job) => job,
        _ => panic!("expected a dispatch"),
    };
    let sender = PushWorker::new("demo-project");
    assert_eq!(
        sender.handle_response(Some(401), true, &job.notification_id, &mut repo),
        PushStep::RefreshRetry
    );
    assert_eq!(
        sender.handle_response(Some(401), false, &job.notification_id, &mut repo),
        PushStep::Failed
    );
    assert_eq!(
        repo.get(&resp.id).expect("row").status,
        NotificationStatus::Failed
    );
}

#[test]
fn retry_exhaustion_dead_letters() {
    let mut repo = NotificationRepo::new();
    let mut redis = RedisRepository::new();
    let service = NotificationService::new();
    let req = push_request("dev-abc", "Hi", "World");
    let resp = service
        .send(&mut repo, &mut redis, &Some(String::from(QUEUE_KEY)), &req)
        .expect("accepted");

    let worker = QueueWorker::new(String::from(QUEUE_KEY));
    let actor = NotificationWorkerActor::new();
    let sender = PushWorker::new("demo-project");

    // The provider answers 500 on every attempt; each attempt marks the row
    // failed and the actor re-enqueues until the counter reaches the cap.
    let mut seen_counts = Vec::new();
    let mut dead_lettered = None;
    for _attempt in 0..5 {
        let job = match worker.process_notification(&mut redis, &mut repo) {
            ConsumerAction::Dispatch(_, job) => job,
            ConsumerAction::Idle => break,
            _ => panic!("unexpected consumer action"),
        };
        seen_counts.push(job.retry_count);
        let request = sender.prepare(&job).expect("well-formed job");
        assert!(request.body.contains("dev-abc"));
        let step = sender.handle_response(Some(500), true, &job.notification_id, &mut repo);
        assert_eq!(step, PushStep::Failed);
        match actor.handle_failure(job, NotiDeliverError::RequestFailed, QUEUE_KEY, &mut redis, &mut repo) {
            RetryDecision::Requeue(j) => assert!(j.retry_count < 3),
            RetryDecision::DeadLetter(j) => {
                dead_lettered = Some(j);
            }
        }
    }
    // Attempts were made with counters 0, 1 and 2; the third failure
    // dead-letters the job carrying the cap.
    assert_eq!(seen_counts, vec![0, 1, 2]);
    let dead = dead_lettered.expect("job dead-lettered");
    assert_eq!(dead.retry_count, 3);
    assert_eq!(redis.queue_len(QUEUE_KEY), 0);
    assert_eq!(redis.queue_len("noti_queue_failed"), 1);
    assert_eq!(
        repo.get(&resp.id).expect("row").status,
        NotificationStatus::Failed
    );
}

#[test]
fn poisoned_message_goes_to_failed_queue() {
    let mut repo = NotificationRepo::new();
    let mut redis = RedisRepository::new();
    redis.push_to_queue(QUEUE_KEY, "{not valid json");

    let worker = QueueWorker::new(String::from(QUEUE_KEY));
    match worker.process_notification(&mut redis, &mut repo) {
        ConsumerAction::DeadLettered(None) => {}
        _ => panic!("expected the value dead-lettered without an id"),
    }
    assert_eq!(redis.queue_len(QUEUE_KEY), 0);
    assert_eq!(redis.queue_len("noti_queue_failed"), 1);

    // The consumer keeps going: a later well-formed job still dispatches.
    let service = NotificationService::new();
    let req = push_request("dev-abc", "Hi", "World");
    service
        .send(&mut repo, &mut redis, &Some(String::from(QUEUE_KEY)), &req)
        .expect("accepted");
    match worker.process_notification(&mut redis, &mut repo) {
        ConsumerAction::Dispatch(NotificationChannel::Push, _) => {}
        _ => panic!("expected a dispatch after the poison"),
    }
}

#[test]
fn readable_json_without_descriptor_marks_row_failed() {
    let mut repo = NotificationRepo::new();
    let mut redis = RedisRepository::new();
    let service = NotificationService::new();
    let req = push_request("dev-abc", "Hi", "World");
    let resp = service
        .send(&mut repo, &mut redis, &Some(String::from(QUEUE_KEY)), &req)
        .expect("accepted");
    // Drain the real job, then plant a JSON object that is no descriptor but
    // names the row.
    let worker = QueueWorker::new(String::from(QUEUE_KEY));
    let _ = worker.process_notification(&mut redis, &mut repo);
    let crafted = format!("{{\"notification_id\":\"{}\"}}", resp.id);
    redis.push_to_queue(QUEUE_KEY, &crafted);
    match worker.process_notification(&mut redis, &mut repo) {
        ConsumerAction::DeadLettered(Some(id)) => assert_eq!(id, resp.id),
        _ => panic!("expected the value dead-lettered with the recovered id"),
    }
    assert_eq!(redis.queue_len("noti_queue_failed"), 1);
    assert_eq!(
        repo.get(&resp.id).expect("row").status,
        NotificationStatus::Failed
    );
}

#[test]
fn unroutable_channel_dead_letters() {
    let mut repo = NotificationRepo::new();
    let mut redis = RedisRepository::new();
    // A descriptor whose channel has no worker registered.
    redis.push_to_queue(
        QUEUE_KEY,
        r#"{"notification_id":"n-1","recipient":"r","recipient_type":null,"sender":null,"channel":"sms","template_id":null,"payload":{},"retry_count":0}"#,
    );
    let worker = QueueWorker::new(String::from(QUEUE_KEY));
    match worker.process_notification(&mut redis, &mut repo) {
        ConsumerAction::DeadLettered(Some(id)) => assert_eq!(id, "n-1"),
        _ => panic!("expected the job dead-lettered"),
    }
    assert_eq!(redis.queue_len("noti_queue_failed"), 1);
}

#[test]
fn email_validation_rejects_missing_sender() {
    let mut repo = NotificationRepo::new();
    let mut redis = RedisRepository::new();
    let service = NotificationService::new();
    let req = NotificationRequest {
        user_id: String::from(USER_ID),
        recipient: String::from("to@example.com"),
        recipient_type: None,
        sender: None,
        channel: NotificationChannel::Email,
        template_id: None,
        payload: Json::Obj(vec![
            (String::from("subject"), Json::Str(String::from("Hello"))),
            (String::from("content"), Json::Str(String::from("Body"))),
        ]),
    };
    let err = service
        .send(&mut repo, &mut redis, &Some(String::from(QUEUE_KEY)), &req)
        .expect_err("rejected");
    match &err {
        NotiSrvError::InvalidDataField(msg) => assert!(msg.contains("'sender'")),
        _ => panic!("expected InvalidDataField"),
    }
    assert_eq!(repo.len(), 0);
    assert_eq!(redis.queue_len(QUEUE_KEY), 0);
}

#[test]
fn wrong_payload_shape_rejected() {
    let mut repo = NotificationRepo::new();
    let mut redis = RedisRepository::new();
    let service = NotificationService::new();
    let req = NotificationRequest {
        user_id: String::from(USER_ID),
        recipient: String::from("dev-abc"),
        recipient_type: Some(PushRecipientType::Token),
        sender: None,
        channel: NotificationChannel::Push,
        template_id: None,
        payload: Json::Obj(vec![(String::from("foo"), Json::Num(String::from("1")))]),
    };
    let err = service
        .send(&mut repo, &mut redis, &Some(String::from(QUEUE_KEY)), &req)
        .expect_err("rejected");
    match &err {
        NotiSrvError::InvalidDataField(msg) => {
            assert_eq!(msg.as_str(), "Missing required payload's field for push channel")
        }
        _ => panic!("expected InvalidDataField"),
    }
    assert_eq!(repo.len(), 0);
}

#[test]
fn email_delivery_builds_envelope_and_sends() {
    let mut repo = NotificationRepo::new();
    let mut redis = RedisRepository::new();
    let service = NotificationService::new();
    let req = NotificationRequest {
        user_id: String::from(USER_ID),
        recipient: String::from("to@example.com"),
        recipient_type: None,
        sender: Some(String::from("from@example.com")),
        channel: NotificationChannel::Email,
        template_id: None,
        payload: Json::Obj(vec![
            (String::from("subject"), Json::Str(String::from("Hello"))),
            (String::from("content"), Json::Str(String::from("Body"))),
        ]),
    };
    let resp = service
        .send(&mut repo, &mut redis, &Some(String::from(QUEUE_KEY)), &req)
        .expect("accepted");
    let worker = QueueWorker::new(String::from(QUEUE_KEY));
    let job = match worker.process_notification(&mut redis, &mut repo) {
        ConsumerAction::Dispatch(NotificationChannel::Email, job) => job,
        _ => panic!("expected an email dispatch"),
    };
    let sender = EmailWorker::new(String::from("SECRET-REDACTED"));
    let request = sender.prepare(&job).expect("well-formed job");
    assert_eq!(request.url, "https://api.sendgrid.com/v3/mail/send");
    let want = r#"{"personalizations":[{"to":[{"email":"to@example.com"}]}],"from":{"email":"from@example.com"},"subject":"Hello","content":[{"type":"text/plain","value":"Body"}]}"#;
    assert_eq!(request.body, want);
    let step = sender.handle_response(Some(202), &job.notification_id, &mut repo);
    assert_eq!(step, EmailStep::Sent);
    assert_eq!(
        repo.get(&resp.id).expect("row").status,
        NotificationStatus::Sent
    );
}

#[test]
fn email_failure_leaves_row_to_actor() {
    let mut repo = NotificationRepo::new();
    let mut redis = RedisRepository::new();
    let service = NotificationService::new();
    let req = NotificationRequest {
        user_id: String::from(USER_ID),
        recipient: String::from("to@example.com"),
        recipient_type: None,
        sender: Some(String::from("from@example.com")),
        channel: NotificationChannel::Email,
        template_id: None,
        payload: Json::Obj(vec![
            (String::from("subject"), Json::Str(String::from("Hello"))),
            (String::from("content"), Json::Str(String::from("Body"))),
        ]),
    };
    let resp = service
        .send(&mut repo, &mut redis, &Some(String::from(QUEUE_KEY)), &req)
        .expect("accepted");
    let worker = QueueWorker::new(String::from(QUEUE_KEY));
    let job = match worker.process_notification(&mut redis, &mut repo) {
        ConsumerAction::Dispatch(_, job) => job,
        _ => panic!("expected a dispatch"),
    };
    let sender = EmailWorker::new(String::from("SECRET-REDACTED"));
    let step = sender.handle_response(Some(500), &job.notification_id, &mut repo);
    assert_eq!(step, EmailStep::Failed);
    // No status write: the actor drives the retry.
    assert_eq!(
        repo.get(&resp.id).expect("row").status,
        NotificationStatus::Pending
    );
}

#[test]
fn missing_queue_key_leaves_row_pending() {
    let mut repo = NotificationRepo::new();
    let mut redis = RedisRepository::new();
    let service = NotificationService::new();
    let req = push_request("dev-abc", "Hi", "World");
    let err = service
        .send(&mut repo, &mut redis, &None, &req)
        .expect_err("no queue key");
    assert_eq!(err, NotiSrvError::MissingEnvError);
    assert_eq!(repo.len(), 1);
    assert_eq!(redis.queue_len(QUEUE_KEY), 0);
}

#[test]
fn consumer_idles_on_empty_queue() {
    let mut repo = NotificationRepo::new();
    let mut redis = RedisRepository::new();
    let worker = QueueWorker::new(String::from(QUEUE_KEY));
    assert!(worker.get_status());
    match worker.process_notification(&mut redis, &mut repo) {
        ConsumerAction::Idle => {}
        _ => panic!("expected an idle backoff"),
    }
    assert_eq!(redis.queue_len(QUEUE_KEY), 0);
    assert_eq!(redis.queue_len("noti_queue_failed"), 0);
}

#[test]
fn control_characters_ride_the_queue_escaped() {
    let mut repo = NotificationRepo::new();
    let mut redis = RedisRepository::new();
    let service = NotificationService::new();
    let req = push_request("dev-abc", "Hi", "line one\nline two\t\u{1} end");
    service
        .send(&mut repo, &mut redis, &Some(String::from(QUEUE_KEY)), &req)
        .expect("accepted");
    let worker = QueueWorker::new(String::from(QUEUE_KEY));
    let job = match worker.process_notification(&mut redis, &mut repo) {
        ConsumerAction::Dispatch(NotificationChannel::Push, job) => job,
        _ => panic!("expected a push dispatch"),
    };
    let sender = PushWorker::new("demo-project");
    let request = sender.prepare(&job).expect("well-formed job");
    assert!(request.body.contains(r"line one\nline two\t\u0001 end"));
}

#[test]
fn transport_failure_writes_nothing_and_retries() {
    let mut repo = NotificationRepo::new();
    let mut redis = RedisRepository::new();
    let service = NotificationService::new();
    let req = push_request("dev-abc", "Hi", "World");
    let resp = service
        .send(&mut repo, &mut redis, &Some(String::from(QUEUE_KEY)), &req)
        .expect("accepted");
    let worker = QueueWorker::new(String::from(QUEUE_KEY));
    let job = match worker.process_notification(&mut redis, &mut repo) {
        ConsumerAction::Dispatch(_, job) => job,
        _ => panic!("expected a dispatch"),
    };
    let sender = PushWorker::new("demo-project");
    // The POST itself failed: no status, no row write.
    let step = sender.handle_response(None, true, &job.notification_id, &mut repo);
    assert_eq!(step, PushStep::TransportFailed);
    assert_eq!(
        repo.get(&resp.id).expect("row").status,
        NotificationStatus::Pending
    );
    // The actor treats it as transient and re-enqueues.
    let actor = NotificationWorkerActor::new();
    match actor.handle_failure(job, NotiDeliverError::RequestError, QUEUE_KEY, &mut redis, &mut repo) {
        RetryDecision::Requeue(j) => assert_eq!(j.retry_count, 1),
        _ => panic!("expected a requeue"),
    }
    assert_eq!(redis.queue_len(QUEUE_KEY), 1);
}

#[test]
fn shape_refused_job_dead_letters_at_once() {
    let mut repo = NotificationRepo::new();
    let mut redis = RedisRepository::new();
    // A descriptor whose payload does not carry the push shape.
    redis.push_to_queue(
        QUEUE_KEY,
        r#"{"notification_id":"n-9","recipient":"r","recipient_type":"token","sender":null,"channel":"push","template_id":null,"payload":{"foo":1},"retry_count":0}"#,
    );
    let worker = QueueWorker::new(String::from(QUEUE_KEY));
    let job = match worker.process_notification(&mut redis, &mut repo) {
        ConsumerAction::Dispatch(NotificationChannel::Push, job) => job,
        _ => panic!("expected a push dispatch"),
    };
    let sender = PushWorker::new("demo-project");
    let err = sender.prepare(&job).expect_err("shape refused");
    assert_eq!(err, NotiDeliverError::JsonParseError);
    // Terminal: straight to the dead-letter queue, counter unchanged.
    let actor = NotificationWorkerActor::new();
    match actor.handle_failure(job, err, QUEUE_KEY, &mut redis, &mut repo) {
        RetryDecision::DeadLetter(j) => assert_eq!(j.retry_count, 0),
        _ => panic!("expected a dead-letter"),
    }
    assert_eq!(redis.queue_len(QUEUE_KEY), 0);
    assert_eq!(redis.queue_len("noti_queue_failed"), 1);
}
