//! The e-mail channel: builds the provider envelope, with optional
//! attachments and reply-to, and interprets the provider's answer.

use vstd::prelude::*;
use crate::channel::NotificationStatus;
use crate::errors::NotiDeliverError;
use crate::job::{push_member, NotificationDeQueue};
use crate::json::{
    push_item, spec_ser, to_json_string, view_json_list, view_json_members, Json, JsonVal,
};
use crate::payload::{
    email_attachments, email_reply_to, spec_attachments_view, spec_email_attachments,
    spec_email_payload_of, spec_email_reply_to, Attachments, AttachmentsV, EmailPayload,
    EmailPayloadV, ReplyTo, ReplyToV,
};
use crate::store::{spec_apply_update, NotificationRepo};

verus! {

/// One attachment on the wire.
pub open spec fn spec_attachment_json(a: AttachmentsV) -> JsonVal {
    JsonVal::Obj(
        seq![
            ("content"@, JsonVal::Str(a.content)),
            ("filename"@, JsonVal::Str(a.filename)),
            ("type"@, JsonVal::Str(a.file_type)),
            ("disposition"@, JsonVal::Str(a.disposition)),
        ],
    )
}

pub open spec fn spec_attachments_json(atts: Seq<AttachmentsV>) -> Seq<JsonVal> {
    Seq::new(atts.len(), |i: int| spec_attachment_json(atts[i]))
}

/// The reply-to address on the wire.
pub open spec fn spec_reply_to_json(r: ReplyToV) -> JsonVal {
    JsonVal::Obj(seq![("email"@, JsonVal::Str(r.email)), ("name"@, JsonVal::Str(r.name))])
}

/// The provider envelope's members, in wire order; attachments and reply-to
/// stand at the end when present.
pub open spec fn spec_email_members(
    recipient: Seq<char>,
    sender: Seq<char>,
    p: EmailPayloadV,
    atts: Option<Seq<AttachmentsV>>,
    reply: Option<ReplyToV>,
) -> Seq<(Seq<char>, JsonVal)> {
    let base = seq![
        (
            "personalizations"@,
            JsonVal::Arr(
                seq![
                    JsonVal::Obj(
                        seq![
                            (
                                "to"@,
                                JsonVal::Arr(
                                    seq![
                                        JsonVal::Obj(
                                            seq![("email"@, JsonVal::Str(recipient))],
                                        ),
                                    ],
                                ),
                            ),
                        ],
                    ),
                ],
            ),
        ),
        ("from"@, JsonVal::Obj(seq![("email"@, JsonVal::Str(sender))])),
        ("subject"@, JsonVal::Str(p.subject)),
        (
            "content"@,
            JsonVal::Arr(
                seq![
                    JsonVal::Obj(
                        seq![
                            ("type"@, JsonVal::Str(p.content_type)),
                            ("value"@, JsonVal::Str(p.content)),
                        ],
                    ),
                ],
            ),
        ),
    ];
    let with_atts = match atts {
        Some(a) => base.push(("attachments"@, JsonVal::Arr(spec_attachments_json(a)))),
        None => base,
    };
    match reply {
        Some(r) => with_atts.push(("reply_to"@, spec_reply_to_json(r))),
        None => with_atts,
    }
}

pub open spec fn spec_email_envelope(
    recipient: Seq<char>,
    sender: Seq<char>,
    p: EmailPayloadV,
    atts: Option<Seq<AttachmentsV>>,
    reply: Option<ReplyToV>,
) -> JsonVal {
    JsonVal::Obj(spec_email_members(recipient, sender, p, atts, reply))
}

/// An outbound e-mail request, ready for the transport: the URL and the
/// JSON body; the configured API key is the bearer credential.
#[derive(Debug)]
pub struct EmailRequest {
    pub url: String,
    pub body: String,
}

/// What the e-mail send does after one attempt on the wire.
#[derive(Clone, Copy, Debug, PartialEq, Eq, Structural)]
pub enum EmailStep {
    /// A success status: the row is now `sent`.
    Sent,
    /// Any other status: the send reports failure; the actor drives
    /// retries, so the row is left alone.
    Failed,
    /// No answer at all: the transport failed; nothing is written and the
    /// send reports a transport error for the actor to retry.
    TransportFailed,
}

/// Sends through the transactional mail provider.
pub struct EmailWorker {
    pub url: String,
    pub api_key: String,
}

fn attachment_to_json(a: &Attachments) -> (r: Json)
    ensures
        r@ == spec_attachment_json(a@),
{
    let mut ms: Vec<(String, Json)> = Vec::new();
    proof {
        assert(view_json_members(ms@) =~= Seq::<(Seq<char>, JsonVal)>::empty());
    }
    push_member(&mut ms, "content", Json::Str(a.content.clone()));
    push_member(&mut ms, "filename", Json::Str(a.filename.clone()));
    push_member(&mut ms, "type", Json::Str(a.file_type.clone()));
    push_member(&mut ms, "disposition", Json::Str(a.disposition.clone()));
    let r = Json::Obj(ms);
    proof {
        assert(view_json_members(ms@) =~= seq![
            ("content"@, JsonVal::Str(a@.content)),
            ("filename"@, JsonVal::Str(a@.filename)),
            ("type"@, JsonVal::Str(a@.file_type)),
            ("disposition"@, JsonVal::Str(a@.disposition)),
        ]);
    }
    r
}

fn attachments_to_json(atts: &Vec<Attachments>) -> (r: Json)
    ensures
        r@ == JsonVal::Arr(spec_attachments_json(spec_attachments_view(atts@))),
{
    let ghost av = spec_attachments_view(atts@);
    let n = atts.len();
    let mut es: Vec<Json> = Vec::new();
    proof {
        assert(view_json_list(es@) =~= Seq::<JsonVal>::empty());
        assert(view_json_list(es@) =~= spec_attachments_json(av).take(0));
    }
    let mut k: usize = 0;
    while k < n
        invariant
            n == atts@.len(),
            av == spec_attachments_view(atts@),
            k <= n,
            view_json_list(es@) == spec_attachments_json(av).take(k as int),
        decreases n - k,
    {
        push_item(&mut es, attachment_to_json(&atts[k]));
        proof {
            assert(spec_attachments_json(av).take(k + 1 as int) =~= spec_attachments_json(
                av,
            ).take(k as int).push(spec_attachment_json(av[k as int])));
            assert(av[k as int] == atts@[k as int]@);
        }
        k = k + 1;
    }
    proof {
        assert(spec_attachments_json(av).take(n as int) =~= spec_attachments_json(av));
    }
    Json::Arr(es)
}

fn reply_to_to_json(r: &ReplyTo) -> (j: Json)
    ensures
        j@ == spec_reply_to_json(r@),
{
    let mut ms: Vec<(String, Json)> = Vec::new();
    proof {
        assert(view_json_members(ms@) =~= Seq::<(Seq<char>, JsonVal)>::empty());
    }
    push_member(&mut ms, "email", Json::Str(r.email.clone()));
    push_member(&mut ms, "name", Json::Str(r.name.clone()));
    let j = Json::Obj(ms);
    proof {
        assert(view_json_members(ms@) =~= seq![
            ("email"@, JsonVal::Str(r@.email)),
            ("name"@, JsonVal::Str(r@.name)),
        ]);
    }
    j
}

impl EmailWorker {
    /// The provider endpoint and the configured bearer credential.
    pub fn new(api_key: String) -> (r: EmailWorker)
        ensures
            r.url@ == "https://api.sendgrid.com/v3/mail/send"@,
            r.api_key@ == api_key@,
    {
        EmailWorker { url: String::from_str("https://api.sendgrid.com/v3/mail/send"), api_key }
    }

    /// Builds the provider envelope for a job. The payload must carry the
    /// e-mail shape and the job a sender address; otherwise the job is
    /// refused as unparseable. Malformed attachments or reply-to extras are
    /// silently dropped.
    pub fn prepare(&self, n: &NotificationDeQueue) -> (r: Result<EmailRequest, NotiDeliverError>)
        ensures
            match r {
                Ok(req) => {
                    &&& spec_email_payload_of(n@.payload) matches Some(p)
                    &&& n@.sender matches Some(snd)
                    &&& req.url@ == self.url@
                    &&& req.body@ == spec_ser(
                        spec_email_envelope(
                            n@.recipient,
                            n@.sender.unwrap(),
                            spec_email_payload_of(n@.payload).unwrap(),
                            spec_email_attachments(
                                spec_email_payload_of(n@.payload).unwrap().optionals,
                            ),
                            spec_email_reply_to(
                                spec_email_payload_of(n@.payload).unwrap().optionals,
                            ),
                        ),
                    )
                },
                Err(e) => e == NotiDeliverError::JsonParseError && (spec_email_payload_of(
                    n@.payload,
                ) is None || n@.sender is None),
            },
    {
        let payload = match EmailPayload::from_json(&n.payload) {
            Some(p) => p,
            None => {
                return Err(NotiDeliverError::JsonParseError);
            },
        };
        let sender = match &n.sender {
            Some(s) => s,
            None => {
                return Err(NotiDeliverError::JsonParseError);
            },
        };
        let ghost pv = spec_email_payload_of(n@.payload).unwrap();
        let attachments = email_attachments(&payload.optionals);
        let reply = email_reply_to(&payload.optionals);

        let mut to_ms: Vec<(String, Json)> = Vec::new();
        proof {
            assert(view_json_members(to_ms@) =~= Seq::<(Seq<char>, JsonVal)>::empty());
        }
        push_member(&mut to_ms, "email", Json::Str(n.recipient.clone()));
        let ghost to_ms_v = view_json_members(to_ms@);
        let mut to_arr: Vec<Json> = Vec::new();
        proof {
            assert(view_json_list(to_arr@) =~= Seq::<JsonVal>::empty());
        }
        push_item(&mut to_arr, Json::Obj(to_ms));
        let ghost to_arr_v = view_json_list(to_arr@);
        let mut pers_ms: Vec<(String, Json)> = Vec::new();
        proof {
            assert(view_json_members(pers_ms@) =~= Seq::<(Seq<char>, JsonVal)>::empty());
        }
        push_member(&mut pers_ms, "to", Json::Arr(to_arr));
        let ghost pers_ms_v = view_json_members(pers_ms@);
        let mut pers_arr: Vec<Json> = Vec::new();
        proof {
            assert(view_json_list(pers_arr@) =~= Seq::<JsonVal>::empty());
        }
        push_item(&mut pers_arr, Json::Obj(pers_ms));
        let ghost pers_arr_v = view_json_list(pers_arr@);

        let mut from_ms: Vec<(String, Json)> = Vec::new();
        proof {
            assert(view_json_members(from_ms@) =~= Seq::<(Seq<char>, JsonVal)>::empty());
        }
        push_member(&mut from_ms, "email", Json::Str(sender.clone()));
        let ghost from_ms_v = view_json_members(from_ms@);

        let mut content_ms: Vec<(String, Json)> = Vec::new();
        proof {
            assert(view_json_members(content_ms@) =~= Seq::<(Seq<char>, JsonVal)>::empty());
        }
        push_member(&mut content_ms, "type", Json::Str(payload.content_type.clone()));
        push_member(&mut content_ms, "value", Json::Str(payload.content.clone()));
        let ghost content_ms_v = view_json_members(content_ms@);
        let mut content_arr: Vec<Json> = Vec::new();
        proof {
            assert(view_json_list(content_arr@) =~= Seq::<JsonVal>::empty());
        }
        push_item(&mut content_arr, Json::Obj(content_ms));
        let ghost content_arr_v = view_json_list(content_arr@);

        let mut ms: Vec<(String, Json)> = Vec::new();
        proof {
            assert(view_json_members(ms@) =~= Seq::<(Seq<char>, JsonVal)>::empty());
        }
        push_member(&mut ms, "personalizations", Json::Arr(pers_arr));
        push_member(&mut ms, "from", Json::Obj(from_ms));
        push_member(&mut ms, "subject", Json::Str(payload.subject.clone()));
        push_member(&mut ms, "content", Json::Arr(content_arr));
        let ghost base_v = view_json_members(ms@);
        proof {
            assert(to_ms_v =~= seq![("email"@, JsonVal::Str(n@.recipient))]);
            assert(to_arr_v =~= seq![JsonVal::Obj(seq![("email"@, JsonVal::Str(n@.recipient))])]);
            assert(pers_ms_v =~= seq![
                (
                    "to"@,
                    JsonVal::Arr(
                        seq![JsonVal::Obj(seq![("email"@, JsonVal::Str(n@.recipient))])],
                    ),
                ),
            ]);
            assert(from_ms_v =~= seq![("email"@, JsonVal::Str(n@.sender.unwrap()))]);
            assert(content_ms_v =~= seq![
                ("type"@, JsonVal::Str(pv.content_type)),
                ("value"@, JsonVal::Str(pv.content)),
            ]);
            assert(base_v =~= seq![
                ("personalizations"@, JsonVal::Arr(seq![JsonVal::Obj(pers_ms_v)])),
                ("from"@, JsonVal::Obj(from_ms_v)),
                ("subject"@, JsonVal::Str(pv.subject)),
                ("content"@, JsonVal::Arr(seq![JsonVal::Obj(content_ms_v)])),
            ]);
            assert(base_v =~~= spec_email_members(
                n@.recipient,
                n@.sender.unwrap(),
                pv,
                None,
                None,
            ));
        }
        let ghost av = spec_email_attachments(pv.optionals);
        match &attachments {
            Some(atts) => {
                push_member(&mut ms, "attachments", attachments_to_json(atts));
            },
            None => {},
        }
        let ghost with_atts_v = view_json_members(ms@);
        proof {
            match av {
                Some(a) => {
                    assert(with_atts_v == base_v.push(
                        ("attachments"@, JsonVal::Arr(spec_attachments_json(a))),
                    ));
                },
                None => {
                    assert(with_atts_v == base_v);
                },
            }
        }
        match &reply {
            Some(rp) => {
                push_member(&mut ms, "reply_to", reply_to_to_json(rp));
            },
            None => {},
        }
        let ghost all_v = view_json_members(ms@);
        let ghost rv = spec_email_reply_to(pv.optionals);
        proof {
            let want = spec_email_members(n@.recipient, n@.sender.unwrap(), pv, av, rv);
            match rv {
                Some(rr) => {
                    assert(all_v == with_atts_v.push(("reply_to"@, spec_reply_to_json(rr))));
                },
                None => {
                    assert(all_v == with_atts_v);
                },
            }
            assert(all_v =~~= want);
        }
        let envelope = Json::Obj(ms);
        let body = to_json_string(&envelope);
        Ok(EmailRequest { url: self.url.clone(), body })
    }

    /// Interprets one attempt's outcome for a job: a success status marks
    /// the row `sent`; any other status reports failure; no status at all is
    /// a transport failure. In either failing case the row is left to the
    /// actor's retry policy.
    pub fn handle_response(
        &self,
        status: Option<u16>,
        notification_id: &str,
        repo: &mut NotificationRepo,
    ) -> (r: EmailStep)
        requires
            old(repo).wf(),
        ensures
            final(repo).wf(),
            r == EmailStep::Sent <==> (status matches Some(st) && 200 <= st < 300),
            r == EmailStep::TransportFailed <==> status is None,
            match r {
                EmailStep::Sent => final(repo)@ == spec_apply_update(
                    old(repo)@,
                    notification_id@,
                    NotificationStatus::Sent,
                ),
                EmailStep::Failed => final(repo)@ == old(repo)@,
                EmailStep::TransportFailed => final(repo)@ == old(repo)@,
            },
    {
        let st = match status {
            Some(st) => st,
            None => {
                return EmailStep::TransportFailed;
            },
        };
        if 200 <= st && st < 300 {
            repo.update_notification_status(notification_id, NotificationStatus::Sent);
            EmailStep::Sent
        } else {
            EmailStep::Failed
        }
    }
}

} // verus!
