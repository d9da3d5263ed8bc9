//! The ingestion service: validates a request, records the row, and places
//! the job descriptor on the main queue.

use vstd::prelude::*;
use crate::channel::{
    spec_channel_str, spec_recipient_type_str, NotificationChannel, NotificationStatus,
    PushRecipientType,
};
use crate::errors::NotiSrvError;
use crate::job::{spec_job_json, spec_job_wf, spec_opt_view, JobDescV, NotificationEnQueue};
use crate::json::{json_wf, spec_json_wf, spec_ser, Json, JsonVal};
use crate::payload::{spec_email_payload_of, spec_push_payload_of, EmailPayload, PushPayload};
use crate::store::{
    spec_has_id, spec_queue_of, NotificationRepo, NotificationRow, RedisRepository, RowV,
};

verus! {

/// Names the verdict of `uuid::Uuid::parse_str` on a string: whether it is
/// a well-formed UUID in one of the crate's accepted spellings. The verdict
/// depends on the characters alone.
pub uninterp spec fn uuid_ok(s: Seq<char>) -> bool;

/// Relies on `uuid::Uuid::parse_str` for UUID validation.
#[verifier::external_body]
fn uuid_valid(s: &str) -> (r: bool)
    ensures
        r == uuid_ok(s@),
{
    uuid::Uuid::parse_str(s).is_ok()
}

/// Relies on `uuid::Uuid::new_v4` and its hyphenated `Display` form: a
/// fresh random UUID spelled as 36 lowercase hexadecimal and hyphen
/// characters, a spelling `parse_str` accepts. The draw aborts the process
/// only if the operating system's randomness source fails; no input
/// reaches that.
#[verifier::external_body]
fn fresh_uuid() -> (r: String)
    ensures
        r@.len() == 36,
        uuid_ok(r@),
{
    uuid::Uuid::new_v4().to_string()
}

/// An ingestion request, as handed over by the HTTP edge.
pub struct NotificationRequest {
    pub user_id: String,
    pub recipient: String,
    pub recipient_type: Option<PushRecipientType>,
    pub sender: Option<String>,
    pub channel: NotificationChannel,
    pub template_id: Option<String>,
    pub payload: Json,
}

/// The mathematical model of a request.
#[verifier::ext_equal]
pub struct RequestV {
    pub user_id: Seq<char>,
    pub recipient: Seq<char>,
    pub recipient_type: Option<PushRecipientType>,
    pub sender: Option<Seq<char>>,
    pub channel: NotificationChannel,
    pub template_id: Option<Seq<char>>,
    pub payload: JsonVal,
}

impl View for NotificationRequest {
    type V = RequestV;

    open spec fn view(&self) -> RequestV {
        RequestV {
            user_id: self.user_id@,
            recipient: self.recipient@,
            recipient_type: self.recipient_type,
            sender: spec_opt_view(self.sender),
            channel: self.channel,
            template_id: spec_opt_view(self.template_id),
            payload: self.payload@,
        }
    }
}

/// The acknowledgement answered to the caller.
#[derive(Debug)]
pub struct NotificationResponse {
    pub id: String,
    pub status: String,
}

/// Whether the payload fits the channel's shape; the sms channel is not
/// served.
pub open spec fn spec_payload_ok(c: NotificationChannel, v: JsonVal) -> bool {
    match c {
        NotificationChannel::Push => spec_push_payload_of(v) is Some,
        NotificationChannel::Email => spec_email_payload_of(v) is Some,
        NotificationChannel::Sms => false,
    }
}

/// An e-mail request must carry a non-empty sender.
pub open spec fn spec_sender_missing(s: Option<Seq<char>>) -> bool {
    match s {
        None => true,
        Some(v) => v.len() == 0,
    }
}

pub open spec fn spec_msg_payload(c: NotificationChannel) -> Seq<char> {
    "Missing required payload's field for "@ + spec_channel_str(c) + " channel"@
}

/// The validation verdict, first failure first: the payload shape, then the
/// channel's required fields, then the UUID fields, and last that the
/// payload is a JSON value — a payload built directly against the library
/// could hold a number whose literal no JSON text denotes; one read from a
/// JSON body never fails this.
pub open spec fn spec_validation_error(rv: RequestV) -> Option<Seq<char>> {
    if !spec_payload_ok(rv.channel, rv.payload) {
        Some(spec_msg_payload(rv.channel))
    } else if rv.channel == NotificationChannel::Push && rv.recipient_type is None {
        Some("Missing required field 'recipient_type'"@)
    } else if rv.channel == NotificationChannel::Email && spec_sender_missing(rv.sender) {
        Some("Missing required field 'sender'"@)
    } else if !uuid_ok(rv.user_id) {
        Some("Invalid field 'user_id'"@)
    } else if rv.template_id matches Some(t) && !uuid_ok(t) {
        Some("Invalid field 'template_id'"@)
    } else if !spec_json_wf(rv.payload) {
        Some("Payload is not a JSON value"@)
    } else {
        None
    }
}

/// The row recorded for an accepted request.
pub open spec fn spec_row_of_request(rv: RequestV, id: Seq<char>) -> RowV {
    RowV {
        id,
        user_id: rv.user_id,
        recipient: rv.recipient,
        channel: rv.channel,
        template_id: rv.template_id,
        status: NotificationStatus::Pending,
    }
}

/// The descriptor enqueued for an accepted request.
pub open spec fn spec_job_of_request(rv: RequestV, id: Seq<char>) -> JobDescV {
    JobDescV {
        notification_id: id,
        recipient: rv.recipient,
        recipient_type: match rv.recipient_type {
            Some(t) => Some(spec_recipient_type_str(t)),
            None => None,
        },
        sender: rv.sender,
        channel: spec_channel_str(rv.channel),
        template_id: rv.template_id,
        payload: rv.payload,
        retry_count: 0,
    }
}

/// Law: the descriptor an accepted request places on the queue reads back,
/// through the parser and the descriptor codec, as exactly that descriptor,
/// carrying zero retries.
pub proof fn lemma_enqueued_descriptor_readable(rv: RequestV, id: Seq<char>)
    requires
        spec_job_wf(spec_job_of_request(rv, id)),
    ensures
        crate::consumer::spec_raw_job(
            spec_ser(spec_job_json(spec_job_of_request(rv, id), false)),
        ) == Some(spec_job_of_request(rv, id)),
{
    let d = spec_job_of_request(rv, id);
    crate::job::lemma_job_json_wf(d, false);
    crate::json::lemma_parse_serialize(spec_job_json(d, false));
    crate::job::lemma_enqueue_round_trip(d);
}

/// Accepts requests over HTTP and feeds the queue.
pub struct NotificationService {}

impl NotificationService {
    pub fn new() -> (r: NotificationService) {
        NotificationService {}
    }

    /// Whether the payload fits the channel.
    pub fn validate_payload(channel: &NotificationChannel, payload: &Json) -> (r: bool)
        ensures
            r == spec_payload_ok(*channel, payload@),
    {
        match channel {
            NotificationChannel::Push => PushPayload::validate_payload(payload),
            NotificationChannel::Email => EmailPayload::validate_payload(payload),
            NotificationChannel::Sms => false,
        }
    }

    fn validate(req: &NotificationRequest) -> (r: Option<NotiSrvError>)
        ensures
            match r {
                Some(e) => spec_validation_error(req@) matches Some(m) && (
                e matches NotiSrvError::InvalidDataField(s) && s@ == m),
                None => spec_validation_error(req@) is None,
            },
    {
        if !Self::validate_payload(&req.channel, &req.payload) {
            let msg = String::from_str("Missing required payload's field for ").concat(
                req.channel.as_str(),
            ).concat(" channel");
            return Some(NotiSrvError::InvalidDataField(msg));
        }
        match req.channel {
            NotificationChannel::Push => {
                if req.recipient_type.is_none() {
                    return Some(
                        NotiSrvError::InvalidDataField(
                            String::from_str("Missing required field 'recipient_type'"),
                        ),
                    );
                }
            },
            NotificationChannel::Email => {
                let missing = match &req.sender {
                    None => true,
                    Some(s) => s.unicode_len() == 0,
                };
                if missing {
                    return Some(
                        NotiSrvError::InvalidDataField(
                            String::from_str("Missing required field 'sender'"),
                        ),
                    );
                }
            },
            NotificationChannel::Sms => {},
        }
        if !uuid_valid(req.user_id.as_str()) {
            return Some(
                NotiSrvError::InvalidDataField(String::from_str("Invalid field 'user_id'")),
            );
        }
        match &req.template_id {
            Some(t) => {
                if !uuid_valid(t.as_str()) {
                    return Some(
                        NotiSrvError::InvalidDataField(
                            String::from_str("Invalid field 'template_id'"),
                        ),
                    );
                }
            },
            None => {},
        }
        if !json_wf(&req.payload) {
            return Some(
                NotiSrvError::InvalidDataField(String::from_str("Payload is not a JSON value")),
            );
        }
        None
    }

    /// Takes one request through validation, the insert, and the enqueue.
    /// On success the table grew by exactly one pending row and the main
    /// queue by exactly one descriptor carrying the fresh id; the
    /// acknowledgement says `queued`. A failed validation answers with the
    /// offending field and changes nothing; a missing queue key leaves the
    /// recorded row pending and enqueues nothing; an id collision at the
    /// insert answers as the database failure it is.
    pub fn send(
        &self,
        repo: &mut NotificationRepo,
        redis: &mut RedisRepository,
        queue_key: &Option<String>,
        req: &NotificationRequest,
    ) -> (r: Result<NotificationResponse, NotiSrvError>)
        requires
            old(repo).wf(),
        ensures
            final(repo).wf(),
            spec_validation_error(req@) matches Some(m) ==> (
            r matches Err(NotiSrvError::InvalidDataField(s)) && s@ == m) && final(repo)@ == old(
                repo,
            )@ && final(redis)@ == old(redis)@,
            (spec_validation_error(req@) is None && r == Err::<
                NotificationResponse,
                NotiSrvError,
            >(NotiSrvError::DatabaseError)) ==> final(repo)@ == old(repo)@ && final(redis)@ == old(
                redis,
            )@,
            (spec_validation_error(req@) is None && queue_key is None) ==> (r == Err::<
                NotificationResponse,
                NotiSrvError,
            >(NotiSrvError::MissingEnvError) || r == Err::<
                NotificationResponse,
                NotiSrvError,
            >(NotiSrvError::DatabaseError)),
            (spec_validation_error(req@) is None && r == Err::<
                NotificationResponse,
                NotiSrvError,
            >(NotiSrvError::MissingEnvError)) ==> queue_key is None && final(redis)@ == old(
                redis,
            )@ && final(repo)@.len() == old(repo)@.len() + 1 && final(repo)@ == old(repo)@.push(
                spec_row_of_request(req@, final(repo)@.last().id),
            ),
            r matches Ok(resp) ==> spec_validation_error(req@) is None && (queue_key matches Some(
                qk,
            ) && resp.status@ == "queued"@ && resp.id@.len() == 36 && uuid_ok(resp.id@)
                && !spec_has_id(old(repo)@, resp.id@) && final(repo)@ == old(repo)@.push(
                spec_row_of_request(req@, resp.id@),
            ) && spec_job_wf(spec_job_of_request(req@, resp.id@)) && spec_queue_of(
                final(redis)@,
                qk@,
            ) == spec_queue_of(old(redis)@, qk@).push(
                spec_ser(spec_job_json(spec_job_of_request(req@, resp.id@), false)),
            ) && (forall|k2: Seq<char>|
                k2 != qk@ ==> spec_queue_of(final(redis)@, k2) == spec_queue_of(old(redis)@, k2))),
            (spec_validation_error(req@) is None && queue_key is Some) ==> (r is Ok || r == Err::<
                NotificationResponse,
                NotiSrvError,
            >(NotiSrvError::DatabaseError)),
            (spec_validation_error(req@) is None && r == Err::<
                NotificationResponse,
                NotiSrvError,
            >(NotiSrvError::DatabaseError)) ==> exists|i: int|
                0 <= i < old(repo)@.len() && (#[trigger] old(repo)@[i]).id.len() == 36 && uuid_ok(
                    old(repo)@[i].id,
                ),
    {
        match Self::validate(req) {
            Some(e) => {
                return Err(e);
            },
            None => {},
        }
        let id = fresh_uuid();
        let row = NotificationRow {
            id: id.clone(),
            user_id: req.user_id.clone(),
            recipient: req.recipient.clone(),
            channel: req.channel,
            template_id: crate::store::clone_opt_string(&req.template_id),
            status: NotificationStatus::Pending,
        };
        match repo.insert(row) {
            Ok(()) => {},
            Err(_) => {
                proof {
                    let w = choose|i: int|
                        0 <= i < old(repo)@.len() && (#[trigger] old(repo)@[i]).id == id@;
                    assert(old(repo)@[w].id.len() == 36);
                    assert(uuid_ok(old(repo)@[w].id));
                }
                return Err(NotiSrvError::DatabaseError);
            },
        }
        let recipient_type: Option<String> = match &req.recipient_type {
            Some(t) => Some(String::from_str(t.as_str())),
            None => None,
        };
        let enq = NotificationEnQueue {
            notification_id: id.clone(),
            recipient: req.recipient.clone(),
            recipient_type,
            sender: crate::store::clone_opt_string(&req.sender),
            channel: String::from_str(req.channel.as_str()),
            template_id: crate::store::clone_opt_string(&req.template_id),
            payload: req.payload.clone_json(),
        };
        proof {
            assert(enq@ =~= spec_job_of_request(req@, id@));
            assert(spec_job_wf(enq@));
        }
        let wire = crate::json::to_json_string(&enq.to_json());
        let qk = match queue_key {
            Some(qk) => qk,
            None => {
                return Err(NotiSrvError::MissingEnvError);
            },
        };
        redis.push_to_queue(qk.as_str(), wire.as_str());
        Ok(NotificationResponse { id, status: String::from_str("queued") })
    }
}

} // verus!
