//! Channel payload shapes: what each channel requires of the free-form
//! `payload` value, and the optional e-mail extras.

use vstd::prelude::*;
use crate::job::{spec_str_field, spec_opt_view};
use crate::json::{obj_lookup, spec_obj_get, Json, JsonVal};

verus! {

// ---------------------------------------------------------------------------
// Push
// ---------------------------------------------------------------------------

/// The push payload: a title and a body.
pub struct PushPayload {
    pub title: String,
    pub body: String,
}

#[verifier::ext_equal]
pub struct PushPayloadV {
    pub title: Seq<char>,
    pub body: Seq<char>,
}

impl View for PushPayload {
    type V = PushPayloadV;

    open spec fn view(&self) -> PushPayloadV {
        PushPayloadV { title: self.title@, body: self.body@ }
    }
}

/// What the push channel reads out of a payload: defined exactly when
/// `title` and `body` are strings of an object.
pub open spec fn spec_push_payload_of(v: JsonVal) -> Option<PushPayloadV> {
    match v {
        JsonVal::Obj(ms) => match spec_str_field(spec_obj_get(ms, "title"@)) {
            None => None,
            Some(title) => match spec_str_field(spec_obj_get(ms, "body"@)) {
                None => None,
                Some(body) => Some(PushPayloadV { title, body }),
            },
        },
        _ => None,
    }
}

impl PushPayload {
    /// Reads the push shape out of a payload value.
    pub fn from_json(payload: &Json) -> (r: Option<PushPayload>)
        ensures
            match r {
                Some(p) => spec_push_payload_of(payload@) == Some(p@),
                None => spec_push_payload_of(payload@) is None,
            },
    {
        let ms = match payload {
            Json::Obj(ms) => ms,
            _ => {
                return None;
            },
        };
        let title = match obj_lookup(ms, "title") {
            Some(v) => match v {
                Json::Str(s) => s.clone(),
                _ => {
                    return None;
                },
            },
            None => {
                return None;
            },
        };
        let body = match obj_lookup(ms, "body") {
            Some(v) => match v {
                Json::Str(s) => s.clone(),
                _ => {
                    return None;
                },
            },
            None => {
                return None;
            },
        };
        Some(PushPayload { title, body })
    }

    /// Whether a payload fits the push channel.
    pub fn validate_payload(payload: &Json) -> (r: bool)
        ensures
            r == (spec_push_payload_of(payload@) is Some),
    {
        PushPayload::from_json(payload).is_some()
    }
}

// ---------------------------------------------------------------------------
// Email
// ---------------------------------------------------------------------------

/// The default media type of an e-mail body.
pub fn default_content_type() -> (r: String)
    ensures
        r@ == "text/plain"@,
{
    String::from_str("text/plain")
}

/// The default disposition of an attachment.
pub fn default_disposition() -> (r: String)
    ensures
        r@ == "attachment"@,
{
    String::from_str("attachment")
}

/// The e-mail payload: a subject, a body, its media type, and a free-form
/// object of optional extras.
pub struct EmailPayload {
    pub subject: String,
    pub content: String,
    pub content_type: String,
    pub optionals: Option<Json>,
}

#[verifier::ext_equal]
pub struct EmailPayloadV {
    pub subject: Seq<char>,
    pub content: Seq<char>,
    pub content_type: Seq<char>,
    pub optionals: Option<JsonVal>,
}

impl View for EmailPayload {
    type V = EmailPayloadV;

    open spec fn view(&self) -> EmailPayloadV {
        EmailPayloadV {
            subject: self.subject@,
            content: self.content@,
            content_type: self.content_type@,
            optionals: match self.optionals {
                Some(ref j) => Some(j@),
                None => None,
            },
        }
    }
}

/// The media type of the body: absent means `text/plain`; anything but a
/// string refuses the payload.
pub open spec fn spec_content_type_field(v: Option<JsonVal>) -> Option<Seq<char>> {
    match v {
        None => Some("text/plain"@),
        Some(JsonVal::Str(s)) => Some(s),
        Some(_) => None,
    }
}

/// The optional extras: absent or `null` mean none.
pub open spec fn spec_optionals_field(v: Option<JsonVal>) -> Option<JsonVal> {
    match v {
        None => None,
        Some(JsonVal::Null) => None,
        Some(w) => Some(w),
    }
}

/// What the e-mail channel reads out of a payload: defined exactly when
/// `subject` and `content` are strings of an object and `content_type`, if
/// present, is a string.
pub open spec fn spec_email_payload_of(v: JsonVal) -> Option<EmailPayloadV> {
    match v {
        JsonVal::Obj(ms) => match spec_str_field(spec_obj_get(ms, "subject"@)) {
            None => None,
            Some(subject) => match spec_str_field(spec_obj_get(ms, "content"@)) {
                None => None,
                Some(content) => match spec_content_type_field(spec_obj_get(ms, "content_type"@)) {
                    None => None,
                    Some(content_type) => Some(
                        EmailPayloadV {
                            subject,
                            content,
                            content_type,
                            optionals: spec_optionals_field(spec_obj_get(ms, "optionals"@)),
                        },
                    ),
                },
            },
        },
        _ => None,
    }
}

impl EmailPayload {
    /// Reads the e-mail shape out of a payload value.
    pub fn from_json(payload: &Json) -> (r: Option<EmailPayload>)
        ensures
            match r {
                Some(p) => spec_email_payload_of(payload@) == Some(p@),
                None => spec_email_payload_of(payload@) is None,
            },
    {
        let ms = match payload {
            Json::Obj(ms) => ms,
            _ => {
                return None;
            },
        };
        let subject = match obj_lookup(ms, "subject") {
            Some(v) => match v {
                Json::Str(s) => s.clone(),
                _ => {
                    return None;
                },
            },
            None => {
                return None;
            },
        };
        let content = match obj_lookup(ms, "content") {
            Some(v) => match v {
                Json::Str(s) => s.clone(),
                _ => {
                    return None;
                },
            },
            None => {
                return None;
            },
        };
        let content_type = match obj_lookup(ms, "content_type") {
            Some(v) => match v {
                Json::Str(s) => s.clone(),
                _ => {
                    return None;
                },
            },
            None => default_content_type(),
        };
        let optionals = match obj_lookup(ms, "optionals") {
            Some(v) => match v {
                Json::Null => None,
                w => Some(w.clone_json()),
            },
            None => None,
        };
        let p = EmailPayload { subject, content, content_type, optionals };
        proof {
            assert(spec_email_payload_of(payload@).unwrap() =~= p@);
        }
        Some(p)
    }

    /// Whether a payload fits the e-mail channel.
    pub fn validate_payload(payload: &Json) -> (r: bool)
        ensures
            r == (spec_email_payload_of(payload@) is Some),
    {
        EmailPayload::from_json(payload).is_some()
    }
}

// ---------------------------------------------------------------------------
// Email extras: attachments and reply-to
// ---------------------------------------------------------------------------

/// One attachment of an e-mail; `file_type` carries the wire key `type`.
pub struct Attachments {
    pub content: String,
    pub filename: String,
    pub file_type: String,
    pub disposition: String,
}

#[verifier::ext_equal]
pub struct AttachmentsV {
    pub content: Seq<char>,
    pub filename: Seq<char>,
    pub file_type: Seq<char>,
    pub disposition: Seq<char>,
}

impl View for Attachments {
    type V = AttachmentsV;

    open spec fn view(&self) -> AttachmentsV {
        AttachmentsV {
            content: self.content@,
            filename: self.filename@,
            file_type: self.file_type@,
            disposition: self.disposition@,
        }
    }
}

/// The reply-to address of an e-mail.
pub struct ReplyTo {
    pub email: String,
    pub name: String,
}

#[verifier::ext_equal]
pub struct ReplyToV {
    pub email: Seq<char>,
    pub name: Seq<char>,
}

impl View for ReplyTo {
    type V = ReplyToV;

    open spec fn view(&self) -> ReplyToV {
        ReplyToV { email: self.email@, name: self.name@ }
    }
}

/// One attachment object: `content`, `filename` and `type` must be strings;
/// `disposition` defaults to `attachment`.
pub open spec fn spec_attachment_of(v: JsonVal) -> Option<AttachmentsV> {
    match v {
        JsonVal::Obj(ms) => match spec_str_field(spec_obj_get(ms, "content"@)) {
            None => None,
            Some(content) => match spec_str_field(spec_obj_get(ms, "filename"@)) {
                None => None,
                Some(filename) => match spec_str_field(spec_obj_get(ms, "type"@)) {
                    None => None,
                    Some(file_type) => match spec_disposition_field(
                        spec_obj_get(ms, "disposition"@),
                    ) {
                        None => None,
                        Some(disposition) => Some(
                            AttachmentsV { content, filename, file_type, disposition },
                        ),
                    },
                },
            },
        },
        _ => None,
    }
}

pub open spec fn spec_disposition_field(v: Option<JsonVal>) -> Option<Seq<char>> {
    match v {
        None => Some("attachment"@),
        Some(JsonVal::Str(s)) => Some(s),
        Some(_) => None,
    }
}

/// A list of attachments, or nothing if any element is malformed.
pub open spec fn spec_attachment_list_of(es: Seq<JsonVal>) -> Option<Seq<AttachmentsV>>
    decreases es,
{
    if es.len() == 0 {
        Some(Seq::empty())
    } else {
        match spec_attachment_of(es[0]) {
            None => None,
            Some(a) => match spec_attachment_list_of(es.skip(1)) {
                None => None,
                Some(rest) => Some(seq![a] + rest),
            },
        }
    }
}

pub open spec fn spec_attachments_of(v: JsonVal) -> Option<Seq<AttachmentsV>> {
    match v {
        JsonVal::Arr(es) => spec_attachment_list_of(es),
        _ => None,
    }
}

/// A reply-to object: `email` and `name` must be strings.
pub open spec fn spec_reply_to_of(v: JsonVal) -> Option<ReplyToV> {
    match v {
        JsonVal::Obj(ms) => match spec_str_field(spec_obj_get(ms, "email"@)) {
            None => None,
            Some(email) => match spec_str_field(spec_obj_get(ms, "name"@)) {
                None => None,
                Some(name) => Some(ReplyToV { email, name }),
            },
        },
        _ => None,
    }
}

fn attachment_from_json(v: &Json) -> (r: Option<Attachments>)
    ensures
        match r {
            Some(a) => spec_attachment_of(v@) == Some(a@),
            None => spec_attachment_of(v@) is None,
        },
{
    let ms = match v {
        Json::Obj(ms) => ms,
        _ => {
            return None;
        },
    };
    let content = match obj_lookup(ms, "content") {
        Some(w) => match w {
            Json::Str(s) => s.clone(),
            _ => {
                return None;
            },
        },
        None => {
            return None;
        },
    };
    let filename = match obj_lookup(ms, "filename") {
        Some(w) => match w {
            Json::Str(s) => s.clone(),
            _ => {
                return None;
            },
        },
        None => {
            return None;
        },
    };
    let file_type = match obj_lookup(ms, "type") {
        Some(w) => match w {
            Json::Str(s) => s.clone(),
            _ => {
                return None;
            },
        },
        None => {
            return None;
        },
    };
    let disposition = match obj_lookup(ms, "disposition") {
        Some(w) => match w {
            Json::Str(s) => s.clone(),
            _ => {
                return None;
            },
        },
        None => default_disposition(),
    };
    Some(Attachments { content, filename, file_type, disposition })
}

pub open spec fn spec_attachments_view(v: Seq<Attachments>) -> Seq<AttachmentsV> {
    Seq::new(v.len(), |i: int| v[i]@)
}

fn attachment_list_from_json(es: &Vec<Json>, k: usize) -> (r: Option<Vec<Attachments>>)
    requires
        k <= es@.len(),
    ensures
        match r {
            Some(v) => spec_attachment_list_of(
                crate::json::view_json_list(es@).skip(k as int),
            ) == Some(spec_attachments_view(v@)),
            None => spec_attachment_list_of(crate::json::view_json_list(es@).skip(k as int))
                is None,
        },
    decreases es@.len() - k,
{
    proof {
        crate::json::lemma_view_json_list_len(es@);
    }
    let ghost tail = crate::json::view_json_list(es@).skip(k as int);
    if k == es.len() {
        let out: Vec<Attachments> = Vec::new();
        proof {
            assert(tail.len() == 0);
            assert(spec_attachments_view(out@) =~= Seq::<AttachmentsV>::empty());
        }
        Some(out)
    } else {
        proof {
            crate::json::lemma_view_json_list_index(es@, k as int);
            assert(tail[0] == crate::json::view_json(es@[k as int]));
            assert(tail.skip(1) =~= crate::json::view_json_list(es@).skip(k + 1 as int));
        }
        let head = match attachment_from_json(&es[k]) {
            Some(a) => a,
            None => {
                return None;
            },
        };
        let mut rest = match attachment_list_from_json(es, k + 1) {
            Some(v) => v,
            None => {
                return None;
            },
        };
        let ghost rest0 = rest@;
        let ghost headg = head;
        let mut out: Vec<Attachments> = Vec::new();
        out.push(head);
        out.append(&mut rest);
        proof {
            assert(out@ =~= seq![headg] + rest0);
            assert(spec_attachments_view(out@) =~= seq![headg@] + spec_attachments_view(rest0));
        }
        Some(out)
    }
}

/// The extras of an e-mail payload: each is read from `optionals` when it is
/// an object holding it well-formed, and silently dropped otherwise.
pub open spec fn spec_email_attachments(optionals: Option<JsonVal>) -> Option<Seq<AttachmentsV>> {
    match optionals {
        Some(JsonVal::Obj(ms)) => match spec_obj_get(ms, "attachments"@) {
            Some(a) => spec_attachments_of(a),
            None => None,
        },
        _ => None,
    }
}

pub open spec fn spec_email_reply_to(optionals: Option<JsonVal>) -> Option<ReplyToV> {
    match optionals {
        Some(JsonVal::Obj(ms)) => match spec_obj_get(ms, "reply_to"@) {
            Some(r) => spec_reply_to_of(r),
            None => None,
        },
        _ => None,
    }
}

/// Reads the attachments out of the extras; malformed ones are dropped.
pub fn email_attachments(optionals: &Option<Json>) -> (r: Option<Vec<Attachments>>)
    ensures
        match r {
            Some(v) => spec_email_attachments(spec_opt_json_view(*optionals)) == Some(
                spec_attachments_view(v@),
            ),
            None => spec_email_attachments(spec_opt_json_view(*optionals)) is None,
        },
{
    let o = match optionals {
        Some(j) => j,
        None => {
            return None;
        },
    };
    let ms = match o {
        Json::Obj(ms) => ms,
        _ => {
            return None;
        },
    };
    let a = match obj_lookup(ms, "attachments") {
        Some(a) => a,
        None => {
            return None;
        },
    };
    let es = match a {
        Json::Arr(es) => es,
        _ => {
            return None;
        },
    };
    proof {
        assert(crate::json::view_json_list(es@).skip(0) =~= crate::json::view_json_list(es@));
    }
    attachment_list_from_json(es, 0)
}

/// Reads the reply-to address out of the extras; a malformed one is dropped.
pub fn email_reply_to(optionals: &Option<Json>) -> (r: Option<ReplyTo>)
    ensures
        match r {
            Some(v) => spec_email_reply_to(spec_opt_json_view(*optionals)) == Some(v@),
            None => spec_email_reply_to(spec_opt_json_view(*optionals)) is None,
        },
{
    let o = match optionals {
        Some(j) => j,
        None => {
            return None;
        },
    };
    let ms = match o {
        Json::Obj(ms) => ms,
        _ => {
            return None;
        },
    };
    let rj = match obj_lookup(ms, "reply_to") {
        Some(r) => r,
        None => {
            return None;
        },
    };
    let rms = match rj {
        Json::Obj(rms) => rms,
        _ => {
            return None;
        },
    };
    let email = match obj_lookup(rms, "email") {
        Some(w) => match w {
            Json::Str(s) => s.clone(),
            _ => {
                return None;
            },
        },
        None => {
            return None;
        },
    };
    let name = match obj_lookup(rms, "name") {
        Some(w) => match w {
            Json::Str(s) => s.clone(),
            _ => {
                return None;
            },
        },
        None => {
            return None;
        },
    };
    Some(ReplyTo { email, name })
}

/// The view of an optional JSON value.
pub open spec fn spec_opt_json_view(o: Option<Json>) -> Option<JsonVal> {
    match o {
        Some(j) => Some(j@),
        None => None,
    }
}

} // verus!
