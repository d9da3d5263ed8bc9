//! The stores, the cache, the retry policy and the small lookups, each on
//! concrete values.

use notify_core::cache::TokenManager;
use notify_core::channel::{NotificationChannel, NotificationStatus, PushRecipientType};
use notify_core::email::EmailWorker;
use notify_core::job::NotificationDeQueue;
use notify_core::push::PushWorker;
use notify_core::consumer::{channel_of_str, WorkerController};
use notify_core::errors::{NotiDeliverError, NotiSrvError};
use notify_core::json::Json;
use notify_core::payload::{
    default_content_type, default_disposition, email_attachments, email_reply_to, EmailPayload,
    PushPayload,
};
use notify_core::service::{NotificationRequest, NotificationService};
use notify_core::store::{NotificationRepo, NotificationRow, RedisRepository};
use notify_core::worker::failed_key;

fn row(id: &str) -> NotificationRow {
    NotificationRow {
        id: String::from(id),
        user_id: String::from("550e8400-e29b-41d4-a716-446655440000"),
        recipient: String::from("dev-abc"),
        channel: NotificationChannel::Push,
        template_id: None,
        status: NotificationStatus::Pending,
    }
}

#[test]
fn repo_insert_refuses_duplicate_id() {
    let mut repo = NotificationRepo::new();
    assert!(repo.insert(row("a")).is_ok());
    assert_eq!(repo.insert(row("a")), Err(NotiSrvError::DatabaseError));
    assert_eq!(repo.len(), 1);
}

#[test]
fn status_update_is_idempotent() {
    let mut repo = NotificationRepo::new();
    assert!(repo.insert(row("a")).is_ok());
    let first = repo.update_notification_status("a", NotificationStatus::Sent);
    assert_eq!(first, 1);
    let second = repo.update_notification_status("a", NotificationStatus::Sent);
    // The row count may be 0 or 1; the state is unchanged.
    assert_eq!(second, 1);
    assert_eq!(
        repo.get("a").expect("row").status,
        NotificationStatus::Sent
    );
    let missing = repo.update_notification_status("zzz", NotificationStatus::Failed);
    assert_eq!(missing, 0);
}

#[test]
fn queues_are_fifo_and_independent() {
    let mut redis = RedisRepository::new();
    redis.push_to_queue("q", "one");
    redis.push_to_queue("q", "two");
    redis.push_to_queue("other", "x");
    assert_eq!(redis.queue_len("q"), 2);
    assert_eq!(redis.queue_len("other"), 1);
    assert_eq!(redis.pop_from_queue("q").as_deref(), Some("one"));
    assert_eq!(redis.pop_from_queue("q").as_deref(), Some("two"));
    assert_eq!(redis.pop_from_queue("q"), None);
    assert_eq!(redis.pop_from_queue("other").as_deref(), Some("x"));
}

#[test]
fn failed_key_appends_suffix() {
    assert_eq!(failed_key("noti_queue"), "noti_queue_failed");
}

#[test]
fn token_cache_keeps_old_token_on_failed_refresh() {
    let mut cache = TokenManager::new(String::from("T0"));
    cache.update_token(Err(NotiDeliverError::GCPAuthError));
    assert_eq!(cache.get_token().expect("token").as_str(), "T0");
    cache.update_token(Ok(String::from("T1")));
    assert_eq!(cache.get_token().expect("token").as_str(), "T1");
}

#[test]
fn channel_routing_and_names() {
    assert_eq!(channel_of_str("push"), Some(NotificationChannel::Push));
    assert_eq!(channel_of_str("email"), Some(NotificationChannel::Email));
    assert_eq!(channel_of_str("sms"), None);
    assert_eq!(channel_of_str("fax"), None);
    assert_eq!(NotificationChannel::Sms.as_str(), "sms");
    assert_eq!(PushRecipientType::Condition.as_str(), "condition");
    assert_eq!(NotificationStatus::Queued.as_str(), "queued");
    assert!(NotificationStatus::Sent.is_terminal());
    assert!(NotificationStatus::Failed.is_terminal());
    assert!(!NotificationStatus::Pending.is_terminal());
    assert!(!NotificationStatus::Queued.is_terminal());
}

#[test]
fn worker_status_bodies() {
    assert_eq!(WorkerController::status_message(true), "Queue worker is running");
    assert_eq!(WorkerController::status_message(false), "Queue worker stopped");
}

#[test]
fn error_messages() {
    assert_eq!(NotiSrvError::DatabaseError.message(), "Database query failed");
    assert_eq!(NotiSrvError::MissingEnvError.message(), "Env must be set");
    assert_eq!(NotiSrvError::RedisQueuePushError.message(), "Redis push failed");
    assert_eq!(
        NotiSrvError::InvalidDataField(String::from("boom")).message(),
        "boom"
    );
    assert_eq!(NotiDeliverError::JsonParseError.message(), "Cannot parse this object");
    assert_eq!(NotiDeliverError::RequestFailed.message(), "Request failed");
    assert_eq!(NotiDeliverError::NoneValue.message(), "None value");
}

#[test]
fn payload_defaults() {
    assert_eq!(default_content_type(), "text/plain");
    assert_eq!(default_disposition(), "attachment");
}

#[test]
fn push_payload_shape() {
    let good = Json::Obj(vec![
        (String::from("title"), Json::Str(String::from("t"))),
        (String::from("body"), Json::Str(String::from("b"))),
    ]);
    assert!(PushPayload::validate_payload(&good));
    let p = PushPayload::from_json(&good).expect("shape fits");
    assert_eq!(p.title, "t");
    assert_eq!(p.body, "b");

    let title_not_string = Json::Obj(vec![
        (String::from("title"), Json::Num(String::from("1"))),
        (String::from("body"), Json::Str(String::from("b"))),
    ]);
    assert!(!PushPayload::validate_payload(&title_not_string));
    assert!(!PushPayload::validate_payload(&Json::Str(String::from("x"))));
}

#[test]
fn email_payload_shape_and_defaults() {
    let minimal = Json::Obj(vec![
        (String::from("subject"), Json::Str(String::from("s"))),
        (String::from("content"), Json::Str(String::from("c"))),
    ]);
    let p = EmailPayload::from_json(&minimal).expect("shape fits");
    assert_eq!(p.content_type, "text/plain");
    assert!(p.optionals.is_none());

    let with_type = Json::Obj(vec![
        (String::from("subject"), Json::Str(String::from("s"))),
        (String::from("content"), Json::Str(String::from("c"))),
        (String::from("content_type"), Json::Str(String::from("text/html"))),
    ]);
    let p = EmailPayload::from_json(&with_type).expect("shape fits");
    assert_eq!(p.content_type, "text/html");

    let missing_content = Json::Obj(vec![
        (String::from("subject"), Json::Str(String::from("s"))),
    ]);
    assert!(!EmailPayload::validate_payload(&missing_content));
}

#[test]
fn email_extras_extraction() {
    let optionals = Some(Json::Obj(vec![
        (
            String::from("attachments"),
            Json::Arr(vec![Json::Obj(vec![
                (String::from("content"), Json::Str(String::from("QUJD"))),
                (String::from("filename"), Json::Str(String::from("a.txt"))),
                (String::from("type"), Json::Str(String::from("text/plain"))),
            ])]),
        ),
        (
            String::from("reply_to"),
            Json::Obj(vec![
                (String::from("email"), Json::Str(String::from("r@example.com"))),
                (String::from("name"), Json::Str(String::from("R"))),
            ]),
        ),
    ]));
    let atts = email_attachments(&optionals).expect("attachments read");
    assert_eq!(atts.len(), 1);
    assert_eq!(atts[0].filename, "a.txt");
    assert_eq!(atts[0].disposition, "attachment");
    let reply = email_reply_to(&optionals).expect("reply-to read");
    assert_eq!(reply.email, "r@example.com");
    assert_eq!(reply.name, "R");

    // Malformed extras are dropped silently.
    let malformed = Some(Json::Obj(vec![(
        String::from("attachments"),
        Json::Arr(vec![Json::Obj(vec![(
            String::from("filename"),
            Json::Str(String::from("a.txt")),
        )])]),
    )]));
    assert!(email_attachments(&malformed).is_none());
    assert!(email_reply_to(&malformed).is_none());
    assert!(email_attachments(&None).is_none());
}

#[test]
fn invalid_user_id_is_rejected() {
    let mut repo = NotificationRepo::new();
    let mut redis = RedisRepository::new();
    let service = NotificationService::new();
    let req = NotificationRequest {
        user_id: String::from("not-a-uuid"),
        recipient: String::from("dev-abc"),
        recipient_type: Some(PushRecipientType::Token),
        sender: None,
        channel: NotificationChannel::Push,
        template_id: None,
        payload: Json::Obj(vec![
            (String::from("title"), Json::Str(String::from("t"))),
            (String::from("body"), Json::Str(String::from("b"))),
        ]),
    };
    let err = service
        .send(&mut repo, &mut redis, &Some(String::from("q")), &req)
        .expect_err("rejected");
    match err {
        NotiSrvError::InvalidDataField(msg) => assert_eq!(msg.as_str(), "Invalid field 'user_id'"),
        _ => panic!("expected InvalidDataField"),
    }
    assert_eq!(repo.len(), 0);
}

#[test]
fn push_without_recipient_type_is_rejected() {
    let mut repo = NotificationRepo::new();
    let mut redis = RedisRepository::new();
    let service = NotificationService::new();
    let req = NotificationRequest {
        user_id: String::from("550e8400-e29b-41d4-a716-446655440000"),
        recipient: String::from("dev-abc"),
        recipient_type: None,
        sender: None,
        channel: NotificationChannel::Push,
        template_id: None,
        payload: Json::Obj(vec![
            (String::from("title"), Json::Str(String::from("t"))),
            (String::from("body"), Json::Str(String::from("b"))),
        ]),
    };
    let err = service
        .send(&mut repo, &mut redis, &Some(String::from("q")), &req)
        .expect_err("rejected");
    match err {
        NotiSrvError::InvalidDataField(msg) => {
            assert_eq!(msg.as_str(), "Missing required field 'recipient_type'")
        }
        _ => panic!("expected InvalidDataField"),
    }
}

#[test]
fn senders_refuse_malformed_jobs() {
    let bad_payload_job = NotificationDeQueue {
        notification_id: String::from("n-1"),
        recipient: String::from("dev-abc"),
        recipient_type: Some(String::from("token")),
        sender: None,
        channel: String::from("push"),
        template_id: None,
        payload: Json::Obj(vec![(String::from("foo"), Json::Num(String::from("1")))]),
        retry_count: 0,
    };
    let push = PushWorker::new("demo-project");
    assert_eq!(
        push.prepare(&bad_payload_job).unwrap_err(),
        NotiDeliverError::JsonParseError
    );

    let no_recipient_type_job = NotificationDeQueue {
        recipient_type: None,
        payload: Json::Obj(vec![
            (String::from("title"), Json::Str(String::from("t"))),
            (String::from("body"), Json::Str(String::from("b"))),
        ]),
        ..bad_payload_job
    };
    assert_eq!(
        push.prepare(&no_recipient_type_job).unwrap_err(),
        NotiDeliverError::JsonParseError
    );

    let no_sender_email_job = NotificationDeQueue {
        notification_id: String::from("n-2"),
        recipient: String::from("to@example.com"),
        recipient_type: None,
        sender: None,
        channel: String::from("email"),
        template_id: None,
        payload: Json::Obj(vec![
            (String::from("subject"), Json::Str(String::from("s"))),
            (String::from("content"), Json::Str(String::from("c"))),
        ]),
        retry_count: 0,
    };
    let email = EmailWorker::new(String::from("SECRET-REDACTED"));
    assert_eq!(
        email.prepare(&no_sender_email_job).unwrap_err(),
        NotiDeliverError::JsonParseError
    );
}

#[test]
fn payload_with_impossible_number_literal_is_rejected() {
    // No JSON text denotes such a payload; it can only be built directly
    // against the library, and ingestion refuses it.
    let mut repo = NotificationRepo::new();
    let mut redis = RedisRepository::new();
    let service = NotificationService::new();
    let req = NotificationRequest {
        user_id: String::from("550e8400-e29b-41d4-a716-446655440000"),
        recipient: String::from("dev-abc"),
        recipient_type: Some(PushRecipientType::Token),
        sender: None,
        channel: NotificationChannel::Push,
        template_id: None,
        payload: Json::Obj(vec![
            (String::from("title"), Json::Str(String::from("t"))),
            (String::from("body"), Json::Str(String::from("b"))),
            (String::from("extra"), Json::Num(String::from("not-a-number"))),
        ]),
    };
    let err = service
        .send(&mut repo, &mut redis, &Some(String::from("q")), &req)
        .expect_err("rejected");
    match err {
        NotiSrvError::InvalidDataField(msg) => {
            assert_eq!(msg.as_str(), "Payload is not a JSON value")
        }
        _ => panic!("expected InvalidDataField"),
    }
    assert_eq!(repo.len(), 0);
}

#[test]
fn newline_in_email_content_is_accepted() {
    let mut repo = NotificationRepo::new();
    let mut redis = RedisRepository::new();
    let service = NotificationService::new();
    let req = NotificationRequest {
        user_id: String::from("550e8400-e29b-41d4-a716-446655440000"),
        recipient: String::from("to@example.com"),
        recipient_type: None,
        sender: Some(String::from("from@example.com")),
        channel: NotificationChannel::Email,
        template_id: None,
        payload: Json::Obj(vec![
            (String::from("subject"), Json::Str(String::from("Hello"))),
            (
                String::from("content"),
                Json::Str(String::from("first line\nsecond line")),
            ),
        ]),
    };
    let resp = service
        .send(&mut repo, &mut redis, &Some(String::from("q")), &req)
        .expect("a multi-line body is an ordinary request");
    assert_eq!(resp.status, "queued");
    assert_eq!(redis.queue_len("q"), 1);
}
