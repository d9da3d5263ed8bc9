//! The push channel: builds the provider envelope and interprets the
//! provider's answer, with one token refresh on a first 401.

use vstd::prelude::*;
use crate::channel::NotificationStatus;
use crate::errors::NotiDeliverError;
use crate::job::{push_member, NotificationDeQueue};
use crate::json::{spec_ser, to_json_string, Json, JsonVal};
use crate::payload::{spec_push_payload_of, PushPayload};
use crate::store::{spec_apply_update, NotificationRepo};

verus! {

/// The provider envelope:
/// `{"message":{<recipient_type>:<recipient>,"notification":{"title":...,"body":...}}}`.
pub open spec fn spec_push_envelope(
    rt: Seq<char>,
    recipient: Seq<char>,
    title: Seq<char>,
    body: Seq<char>,
) -> JsonVal {
    JsonVal::Obj(
        seq![
            (
                "message"@,
                JsonVal::Obj(
                    seq![
                        (rt, JsonVal::Str(recipient)),
                        (
                            "notification"@,
                            JsonVal::Obj(
                                seq![
                                    ("title"@, JsonVal::Str(title)),
                                    ("body"@, JsonVal::Str(body)),
                                ],
                            ),
                        ),
                    ],
                ),
            ),
        ],
    )
}

/// An outbound push request, ready for the transport: the URL and the JSON
/// body; the bearer token is added at the wire.
#[derive(Debug)]
pub struct PushRequest {
    pub url: String,
    pub body: String,
}

/// What the push send does after one attempt on the wire.
#[derive(Clone, Copy, Debug, PartialEq, Eq, Structural)]
pub enum PushStep {
    /// A success status: the row is now `sent`.
    Sent,
    /// A first 401: refresh the token and send once more.
    RefreshRetry,
    /// Any other status: the row is now `failed`; the send reports failure.
    Failed,
    /// No answer at all: the transport failed; the row is left alone and
    /// the send reports a transport error for the actor to retry.
    TransportFailed,
}

/// Sends through the cloud messaging provider.
pub struct PushWorker {
    pub url: String,
}

impl PushWorker {
    /// The endpoint for a project.
    pub fn new(project_id: &str) -> (r: PushWorker)
        ensures
            r.url@ == "https://fcm.googleapis.com/v1/projects/"@ + project_id@
                + "/messages:send"@,
    {
        let url = String::from_str("https://fcm.googleapis.com/v1/projects/").concat(
            project_id,
        ).concat("/messages:send");
        PushWorker { url }
    }

    /// Builds the provider envelope for a job. The payload must carry the
    /// push shape and the job a recipient type; otherwise the job is
    /// refused as unparseable.
    pub fn prepare(&self, n: &NotificationDeQueue) -> (r: Result<PushRequest, NotiDeliverError>)
        ensures
            match r {
                Ok(req) => {
                    &&& spec_push_payload_of(n@.payload) matches Some(p)
                    &&& n@.recipient_type matches Some(rt)
                    &&& req.url@ == self.url@
                    &&& req.body@ == spec_ser(
                        spec_push_envelope(
                            n@.recipient_type.unwrap(),
                            n@.recipient,
                            spec_push_payload_of(n@.payload).unwrap().title,
                            spec_push_payload_of(n@.payload).unwrap().body,
                        ),
                    )
                },
                Err(e) => e == NotiDeliverError::JsonParseError && (spec_push_payload_of(
                    n@.payload,
                ) is None || n@.recipient_type is None),
            },
    {
        let payload = match PushPayload::from_json(&n.payload) {
            Some(p) => p,
            None => {
                return Err(NotiDeliverError::JsonParseError);
            },
        };
        let rt = match &n.recipient_type {
            Some(rt) => rt,
            None => {
                return Err(NotiDeliverError::JsonParseError);
            },
        };
        let ghost pv = spec_push_payload_of(n@.payload).unwrap();
        let ghost rtv = n@.recipient_type.unwrap();
        let mut inner: Vec<(String, Json)> = Vec::new();
        proof {
            assert(crate::json::view_json_members(inner@) =~= Seq::<(Seq<char>, JsonVal)>::empty());
        }
        push_member(&mut inner, "title", Json::Str(payload.title));
        push_member(&mut inner, "body", Json::Str(payload.body));
        let ghost inner_v = crate::json::view_json_members(inner@);
        proof {
            assert(inner_v =~= seq![
                ("title"@, JsonVal::Str(pv.title)),
                ("body"@, JsonVal::Str(pv.body)),
            ]);
        }
        let mut msg: Vec<(String, Json)> = Vec::new();
        proof {
            assert(crate::json::view_json_members(msg@) =~= Seq::<(Seq<char>, JsonVal)>::empty());
        }
        push_member(&mut msg, rt.as_str(), Json::Str(n.recipient.clone()));
        push_member(&mut msg, "notification", Json::Obj(inner));
        let ghost msg_v = crate::json::view_json_members(msg@);
        proof {
            assert(msg_v =~= seq![
                (rtv, JsonVal::Str(n@.recipient)),
                ("notification"@, JsonVal::Obj(inner_v)),
            ]);
        }
        let mut outer: Vec<(String, Json)> = Vec::new();
        proof {
            assert(crate::json::view_json_members(outer@) =~= Seq::<
                (Seq<char>, JsonVal),
            >::empty());
        }
        push_member(&mut outer, "message", Json::Obj(msg));
        let ghost outer_v = crate::json::view_json_members(outer@);
        let envelope = Json::Obj(outer);
        proof {
            assert(outer_v =~= seq![("message"@, JsonVal::Obj(msg_v))]);
            assert(envelope@ == JsonVal::Obj(outer_v));
            assert(spec_push_envelope(rtv, n@.recipient, pv.title, pv.body) == JsonVal::Obj(
                seq![("message"@, JsonVal::Obj(msg_v))],
            )) by {
                assert(msg_v =~= seq![
                    (rtv, JsonVal::Str(n@.recipient)),
                    (
                        "notification"@,
                        JsonVal::Obj(
                            seq![
                                ("title"@, JsonVal::Str(pv.title)),
                                ("body"@, JsonVal::Str(pv.body)),
                            ],
                        ),
                    ),
                ]);
            }
            assert(envelope@ == spec_push_envelope(rtv, n@.recipient, pv.title, pv.body));
        }
        let body = to_json_string(&envelope);
        Ok(PushRequest { url: self.url.clone(), body })
    }

    /// Interprets one attempt's outcome for a job: a success status marks
    /// the row `sent`; a first 401 asks for a refresh and one more send; a
    /// second 401, and any other status, marks the row `failed`. No status
    /// at all is a transport failure: nothing is written and the actor
    /// drives the retry.
    pub fn handle_response(
        &self,
        status: Option<u16>,
        first_attempt: bool,
        notification_id: &str,
        repo: &mut NotificationRepo,
    ) -> (r: PushStep)
        requires
            old(repo).wf(),
        ensures
            final(repo).wf(),
            r == PushStep::Sent <==> (status matches Some(st) && 200 <= st < 300),
            r == PushStep::RefreshRetry <==> (status == Some(401u16) && first_attempt),
            r == PushStep::TransportFailed <==> status is None,
            match r {
                PushStep::Sent => final(repo)@ == spec_apply_update(
                    old(repo)@,
                    notification_id@,
                    NotificationStatus::Sent,
                ),
                PushStep::RefreshRetry => final(repo)@ == old(repo)@,
                PushStep::Failed => final(repo)@ == spec_apply_update(
                    old(repo)@,
                    notification_id@,
                    NotificationStatus::Failed,
                ),
                PushStep::TransportFailed => final(repo)@ == old(repo)@,
            },
    {
        let st = match status {
            Some(st) => st,
            None => {
                return PushStep::TransportFailed;
            },
        };
        if 200 <= st && st < 300 {
            repo.update_notification_status(notification_id, NotificationStatus::Sent);
            PushStep::Sent
        } else if st == 401 && first_attempt {
            PushStep::RefreshRetry
        } else {
            repo.update_notification_status(notification_id, NotificationStatus::Failed);
            PushStep::Failed
        }
    }
}

} // verus!
