//! Job descriptors: the unit of work placed on the queue.
//!
//! The ingestion side builds a [`NotificationEnQueue`]; the delivery side
//! reads a [`NotificationDeQueue`] back. Both are carried as one JSON object;
//! `retry_count` is absent at ingestion and defaults to zero when read.

use vstd::prelude::*;
use crate::digits::{
    lemma_dec_lit_wf, lemma_dec_val_of_lit, lit_to_u8, spec_dec_lit, spec_lit_to_u8, u8_to_lit,
};
use crate::json::{
    spec_json_member_wf, spec_json_obj_wf, spec_json_wf, spec_num_lit_wf, spec_obj_get,
    obj_lookup, Json, JsonVal,
};

verus! {

/// The mathematical model of a job descriptor.
#[verifier::ext_equal]
pub struct JobDescV {
    pub notification_id: Seq<char>,
    pub recipient: Seq<char>,
    pub recipient_type: Option<Seq<char>>,
    pub sender: Option<Seq<char>>,
    pub channel: Seq<char>,
    pub template_id: Option<Seq<char>>,
    pub payload: JsonVal,
    pub retry_count: nat,
}

/// A descriptor as built at ingestion; `retry_count` is implicitly zero.
pub struct NotificationEnQueue {
    pub notification_id: String,
    pub recipient: String,
    pub recipient_type: Option<String>,
    pub sender: Option<String>,
    pub channel: String,
    pub template_id: Option<String>,
    pub payload: Json,
}

/// A descriptor as read back by the delivery service.
pub struct NotificationDeQueue {
    pub notification_id: String,
    pub recipient: String,
    pub recipient_type: Option<String>,
    pub sender: Option<String>,
    pub channel: String,
    pub template_id: Option<String>,
    pub payload: Json,
    pub retry_count: u8,
}

pub open spec fn spec_opt_view(o: Option<String>) -> Option<Seq<char>> {
    match o {
        Some(s) => Some(s@),
        None => None,
    }
}

impl View for NotificationEnQueue {
    type V = JobDescV;

    open spec fn view(&self) -> JobDescV {
        JobDescV {
            notification_id: self.notification_id@,
            recipient: self.recipient@,
            recipient_type: spec_opt_view(self.recipient_type),
            sender: spec_opt_view(self.sender),
            channel: self.channel@,
            template_id: spec_opt_view(self.template_id),
            payload: self.payload@,
            retry_count: 0,
        }
    }
}

impl View for NotificationDeQueue {
    type V = JobDescV;

    open spec fn view(&self) -> JobDescV {
        JobDescV {
            notification_id: self.notification_id@,
            recipient: self.recipient@,
            recipient_type: spec_opt_view(self.recipient_type),
            sender: spec_opt_view(self.sender),
            channel: self.channel@,
            template_id: spec_opt_view(self.template_id),
            payload: self.payload@,
            retry_count: self.retry_count as nat,
        }
    }
}

/// A descriptor the wire format can carry: its payload is a JSON value and
/// its retry counter fits the wire integer.
pub open spec fn spec_job_wf(d: JobDescV) -> bool {
    &&& spec_json_wf(d.payload)
    &&& d.retry_count <= 255
}

// ---------------------------------------------------------------------------
// Encoding
// ---------------------------------------------------------------------------

/// An optional string on the wire: the string, or `null`.
pub open spec fn spec_opt_json(o: Option<Seq<char>>) -> JsonVal {
    match o {
        Some(s) => JsonVal::Str(s),
        None => JsonVal::Null,
    }
}

/// The members of the descriptor object, in wire order.
pub open spec fn spec_job_members(d: JobDescV, with_retry: bool) -> Seq<(Seq<char>, JsonVal)> {
    let base = seq![
        ("notification_id"@, JsonVal::Str(d.notification_id)),
        ("recipient"@, JsonVal::Str(d.recipient)),
        ("recipient_type"@, spec_opt_json(d.recipient_type)),
        ("sender"@, spec_opt_json(d.sender)),
        ("channel"@, JsonVal::Str(d.channel)),
        ("template_id"@, spec_opt_json(d.template_id)),
        ("payload"@, d.payload),
    ];
    if with_retry {
        base.push(("retry_count"@, JsonVal::Num(spec_dec_lit(d.retry_count))))
    } else {
        base
    }
}

/// The descriptor as one JSON object.
pub open spec fn spec_job_json(d: JobDescV, with_retry: bool) -> JsonVal {
    JsonVal::Obj(spec_job_members(d, with_retry))
}

fn opt_to_json(o: &Option<String>) -> (r: Json)
    ensures
        r@ == spec_opt_json(spec_opt_view(*o)),
{
    match o {
        Some(s) => Json::Str(s.clone()),
        None => Json::Null,
    }
}

pub(crate) fn push_member(ms: &mut Vec<(String, Json)>, key: &str, v: Json)
    ensures
        crate::json::view_json_members(final(ms)@) == crate::json::view_json_members(old(ms)@)
            .push((key@, v@)),
{
    let ks = String::from_str(key);
    let ghost kv = (ks, v);
    ms.push((ks, v));
    proof {
        crate::json::lemma_view_json_members_len(old(ms)@);
        crate::json::lemma_view_json_members_len(ms@);
        assert(ms@.drop_last() =~= old(ms)@);
        assert(ms@.last() == kv);
        assert(crate::json::view_json_members(ms@) == crate::json::view_json_members(
            ms@.drop_last(),
        ).push((ms@.last().0@, crate::json::view_json(ms@.last().1))));
        assert(crate::json::view_json_members(ms@) =~= crate::json::view_json_members(old(ms)@)
            .push((key@, v@)));
    }
}

impl NotificationEnQueue {
    /// The wire object of this descriptor; `retry_count` is not written.
    pub fn to_json(&self) -> (r: Json)
        ensures
            r@ == spec_job_json(self@, false),
    {
        let mut ms: Vec<(String, Json)> = Vec::new();
        proof {
            crate::json::lemma_view_json_members_len(ms@);
            assert(crate::json::view_json_members(ms@) =~= Seq::<(Seq<char>, JsonVal)>::empty());
        }
        push_member(&mut ms, "notification_id", Json::Str(self.notification_id.clone()));
        push_member(&mut ms, "recipient", Json::Str(self.recipient.clone()));
        push_member(&mut ms, "recipient_type", opt_to_json(&self.recipient_type));
        push_member(&mut ms, "sender", opt_to_json(&self.sender));
        push_member(&mut ms, "channel", Json::Str(self.channel.clone()));
        push_member(&mut ms, "template_id", opt_to_json(&self.template_id));
        push_member(&mut ms, "payload", self.payload.clone_json());
        let r = Json::Obj(ms);
        proof {
            assert(crate::json::view_json_members(ms@) =~= spec_job_members(self@, false));
        }
        r
    }
}

impl NotificationDeQueue {
    /// The wire object of this descriptor, `retry_count` included.
    pub fn to_json(&self) -> (r: Json)
        ensures
            r@ == spec_job_json(self@, true),
    {
        let mut ms: Vec<(String, Json)> = Vec::new();
        proof {
            crate::json::lemma_view_json_members_len(ms@);
            assert(crate::json::view_json_members(ms@) =~= Seq::<(Seq<char>, JsonVal)>::empty());
        }
        push_member(&mut ms, "notification_id", Json::Str(self.notification_id.clone()));
        push_member(&mut ms, "recipient", Json::Str(self.recipient.clone()));
        push_member(&mut ms, "recipient_type", opt_to_json(&self.recipient_type));
        push_member(&mut ms, "sender", opt_to_json(&self.sender));
        push_member(&mut ms, "channel", Json::Str(self.channel.clone()));
        push_member(&mut ms, "template_id", opt_to_json(&self.template_id));
        push_member(&mut ms, "payload", self.payload.clone_json());
        push_member(&mut ms, "retry_count", Json::Num(u8_to_lit(self.retry_count)));
        let r = Json::Obj(ms);
        proof {
            assert(crate::json::view_json_members(ms@) =~= spec_job_members(self@, true));
        }
        r
    }
}

// ---------------------------------------------------------------------------
// Decoding
// ---------------------------------------------------------------------------

/// A required string field.
pub open spec fn spec_str_field(v: Option<JsonVal>) -> Option<Seq<char>> {
    match v {
        Some(JsonVal::Str(s)) => Some(s),
        _ => None,
    }
}

/// An optional string field: absent and `null` both mean `None`.
pub open spec fn spec_opt_field(v: Option<JsonVal>) -> Option<Option<Seq<char>>> {
    match v {
        None => Some(None),
        Some(JsonVal::Null) => Some(None),
        Some(JsonVal::Str(s)) => Some(Some(s)),
        Some(_) => None,
    }
}

/// The retry counter: absent means zero; otherwise an integer literal that
/// fits a `u8`.
pub open spec fn spec_retry_field(v: Option<JsonVal>) -> Option<u8> {
    match v {
        None => Some(0),
        Some(JsonVal::Num(lit)) => spec_lit_to_u8(lit),
        Some(_) => None,
    }
}

/// What reading a descriptor from a JSON value yields, exactly.
pub open spec fn spec_decode_job(v: JsonVal) -> Option<JobDescV> {
    match v {
        JsonVal::Obj(ms) => match spec_str_field(spec_obj_get(ms, "notification_id"@)) {
            None => None,
            Some(nid) => match spec_str_field(spec_obj_get(ms, "recipient"@)) {
                None => None,
                Some(rcp) => match spec_opt_field(spec_obj_get(ms, "recipient_type"@)) {
                    None => None,
                    Some(rt) => match spec_opt_field(spec_obj_get(ms, "sender"@)) {
                        None => None,
                        Some(snd) => match spec_str_field(spec_obj_get(ms, "channel"@)) {
                            None => None,
                            Some(ch) => match spec_opt_field(spec_obj_get(ms, "template_id"@)) {
                                None => None,
                                Some(tid) => match spec_obj_get(ms, "payload"@) {
                                    None => None,
                                    Some(pl) => match spec_retry_field(
                                        spec_obj_get(ms, "retry_count"@),
                                    ) {
                                        None => None,
                                        Some(rc) => Some(
                                            JobDescV {
                                                notification_id: nid,
                                                recipient: rcp,
                                                recipient_type: rt,
                                                sender: snd,
                                                channel: ch,
                                                template_id: tid,
                                                payload: pl,
                                                retry_count: rc as nat,
                                            },
                                        ),
                                    },
                                },
                            },
                        },
                    },
                },
            },
        },
        _ => None,
    }
}

fn get_str_field(ms: &Vec<(String, Json)>, key: &str) -> (r: Option<String>)
    ensures
        match r {
            Some(s) => spec_str_field(
                spec_obj_get(crate::json::view_json_members(ms@), key@),
            ) == Some(s@),
            None => spec_str_field(
                spec_obj_get(crate::json::view_json_members(ms@), key@),
            ) is None,
        },
{
    match obj_lookup(ms, key) {
        Some(v) => match v {
            Json::Str(s) => Some(s.clone()),
            _ => None,
        },
        None => None,
    }
}

fn get_opt_field(ms: &Vec<(String, Json)>, key: &str) -> (r: Option<Option<String>>)
    ensures
        match r {
            Some(o) => spec_opt_field(
                spec_obj_get(crate::json::view_json_members(ms@), key@),
            ) == Some(spec_opt_view(o)),
            None => spec_opt_field(
                spec_obj_get(crate::json::view_json_members(ms@), key@),
            ) is None,
        },
{
    match obj_lookup(ms, key) {
        None => Some(None),
        Some(v) => match v {
            Json::Null => Some(None),
            Json::Str(s) => Some(Some(s.clone())),
            _ => None,
        },
    }
}

fn get_retry_field(ms: &Vec<(String, Json)>) -> (r: Option<u8>)
    ensures
        r == spec_retry_field(spec_obj_get(crate::json::view_json_members(ms@), "retry_count"@)),
{
    match obj_lookup(ms, "retry_count") {
        None => Some(0),
        Some(v) => match v {
            Json::Num(lit) => lit_to_u8(lit.as_str()),
            _ => None,
        },
    }
}

impl NotificationDeQueue {
    /// Reads a descriptor back from a parsed JSON value.
    pub fn from_json(j: &Json) -> (r: Option<NotificationDeQueue>)
        ensures
            match r {
                Some(d) => spec_decode_job(j@) == Some(d@),
                None => spec_decode_job(j@) is None,
            },
    {
        let ms = match j {
            Json::Obj(ms) => ms,
            _ => {
                return None;
            },
        };
        let notification_id = match get_str_field(ms, "notification_id") {
            Some(x) => x,
            None => {
                return None;
            },
        };
        let recipient = match get_str_field(ms, "recipient") {
            Some(x) => x,
            None => {
                return None;
            },
        };
        let recipient_type = match get_opt_field(ms, "recipient_type") {
            Some(x) => x,
            None => {
                return None;
            },
        };
        let sender = match get_opt_field(ms, "sender") {
            Some(x) => x,
            None => {
                return None;
            },
        };
        let channel = match get_str_field(ms, "channel") {
            Some(x) => x,
            None => {
                return None;
            },
        };
        let template_id = match get_opt_field(ms, "template_id") {
            Some(x) => x,
            None => {
                return None;
            },
        };
        let payload = match obj_lookup(ms, "payload") {
            Some(p) => p.clone_json(),
            None => {
                return None;
            },
        };
        let retry_count = match get_retry_field(ms) {
            Some(x) => x,
            None => {
                return None;
            },
        };
        let d = NotificationDeQueue {
            notification_id,
            recipient,
            recipient_type,
            sender,
            channel,
            template_id,
            payload,
            retry_count,
        };
        proof {
            assert(spec_decode_job(j@).unwrap() =~= d@);
        }
        Some(d)
    }
}

// ---------------------------------------------------------------------------
// Round trip
// ---------------------------------------------------------------------------

proof fn lemma_job_members_get(d: JobDescV, w: bool)
    ensures
        spec_obj_get(spec_job_members(d, w), "notification_id"@) == Some(
            JsonVal::Str(d.notification_id),
        ),
        spec_obj_get(spec_job_members(d, w), "recipient"@) == Some(JsonVal::Str(d.recipient)),
        spec_obj_get(spec_job_members(d, w), "recipient_type"@) == Some(
            spec_opt_json(d.recipient_type),
        ),
        spec_obj_get(spec_job_members(d, w), "sender"@) == Some(spec_opt_json(d.sender)),
        spec_obj_get(spec_job_members(d, w), "channel"@) == Some(JsonVal::Str(d.channel)),
        spec_obj_get(spec_job_members(d, w), "template_id"@) == Some(
            spec_opt_json(d.template_id),
        ),
        spec_obj_get(spec_job_members(d, w), "payload"@) == Some(d.payload),
        spec_obj_get(spec_job_members(d, w), "retry_count"@) == if w {
            Some(JsonVal::Num(spec_dec_lit(d.retry_count)))
        } else {
            None::<JsonVal>
        },
{
    reveal_strlit("notification_id");
    reveal_strlit("recipient");
    reveal_strlit("recipient_type");
    reveal_strlit("sender");
    reveal_strlit("channel");
    reveal_strlit("template_id");
    reveal_strlit("payload");
    reveal_strlit("retry_count");
    assert("notification_id"@.len() == 15);
    assert("recipient"@.len() == 9);
    assert("recipient_type"@.len() == 14);
    assert("sender"@.len() == 6);
    assert("channel"@.len() == 7);
    assert("template_id"@.len() == 11);
    assert("payload"@.len() == 7);
    assert("retry_count"@.len() == 11);
    assert("channel"@ != "payload"@) by {
        assert("channel"@[0] == 'c');
        assert("payload"@[0] == 'p');
    }
    assert("template_id"@ != "retry_count"@) by {
        assert("template_id"@[0] == 't');
        assert("retry_count"@[0] == 'r');
    }
    assert("notification_id"@ != "recipient"@);
    assert("notification_id"@ != "recipient_type"@);
    assert("recipient"@ != "recipient_type"@);
    assert("notification_id"@ != "sender"@);
    assert("recipient"@ != "sender"@);
    assert("recipient_type"@ != "sender"@);
    assert("notification_id"@ != "channel"@);
    assert("recipient"@ != "channel"@);
    assert("recipient_type"@ != "channel"@);
    assert("sender"@ != "channel"@);
    assert("notification_id"@ != "template_id"@);
    assert("recipient"@ != "template_id"@);
    assert("recipient_type"@ != "template_id"@);
    assert("sender"@ != "template_id"@);
    assert("channel"@ != "template_id"@);
    assert("notification_id"@ != "payload"@);
    assert("recipient"@ != "payload"@);
    assert("recipient_type"@ != "payload"@);
    assert("sender"@ != "payload"@);
    assert("channel"@ != "payload"@);
    assert("template_id"@ != "payload"@);
    assert("notification_id"@ != "retry_count"@);
    assert("recipient"@ != "retry_count"@);
    assert("recipient_type"@ != "retry_count"@);
    assert("sender"@ != "retry_count"@);
    assert("channel"@ != "retry_count"@);
    assert("template_id"@ != "retry_count"@);
    assert("payload"@ != "retry_count"@);
    let m0 = ("notification_id"@, JsonVal::Str(d.notification_id));
    let m1 = ("recipient"@, JsonVal::Str(d.recipient));
    let m2 = ("recipient_type"@, spec_opt_json(d.recipient_type));
    let m3 = ("sender"@, spec_opt_json(d.sender));
    let m4 = ("channel"@, JsonVal::Str(d.channel));
    let m5 = ("template_id"@, spec_opt_json(d.template_id));
    let m6 = ("payload"@, d.payload);
    let m7 = ("retry_count"@, JsonVal::Num(spec_dec_lit(d.retry_count)));
    let ms = spec_job_members(d, w);
    if w {
        assert(ms =~= seq![m0, m1, m2, m3, m4, m5, m6, m7]);
    } else {
        assert(ms =~= seq![m0, m1, m2, m3, m4, m5, m6]);
    }
    crate::json::lemma_obj_get_at(ms, "notification_id"@, 0);
    assert forall|t: int| 0 <= t < 1 implies (#[trigger] ms[t]).0 != "recipient"@ by {
        assert(ms[0] == m0);
    }
    crate::json::lemma_obj_get_at(ms, "recipient"@, 1);
    assert forall|t: int| 0 <= t < 2 implies (#[trigger] ms[t]).0 != "recipient_type"@ by {
        assert(ms[0] == m0 && ms[1] == m1);
    }
    crate::json::lemma_obj_get_at(ms, "recipient_type"@, 2);
    assert forall|t: int| 0 <= t < 3 implies (#[trigger] ms[t]).0 != "sender"@ by {
        assert(ms[0] == m0 && ms[1] == m1 && ms[2] == m2);
    }
    crate::json::lemma_obj_get_at(ms, "sender"@, 3);
    assert forall|t: int| 0 <= t < 4 implies (#[trigger] ms[t]).0 != "channel"@ by {
        assert(ms[0] == m0 && ms[1] == m1 && ms[2] == m2 && ms[3] == m3);
    }
    crate::json::lemma_obj_get_at(ms, "channel"@, 4);
    assert forall|t: int| 0 <= t < 5 implies (#[trigger] ms[t]).0 != "template_id"@ by {
        assert(ms[0] == m0 && ms[1] == m1 && ms[2] == m2 && ms[3] == m3 && ms[4] == m4);
    }
    crate::json::lemma_obj_get_at(ms, "template_id"@, 5);
    assert forall|t: int| 0 <= t < 6 implies (#[trigger] ms[t]).0 != "payload"@ by {
        assert(ms[0] == m0 && ms[1] == m1 && ms[2] == m2 && ms[3] == m3 && ms[4] == m4 && ms[5]
            == m5);
    }
    crate::json::lemma_obj_get_at(ms, "payload"@, 6);
    assert forall|t: int| 0 <= t < 7 implies (#[trigger] ms[t]).0 != "retry_count"@ by {
        assert(ms[0] == m0 && ms[1] == m1 && ms[2] == m2 && ms[3] == m3 && ms[4] == m4 && ms[5]
            == m5 && ms[6] == m6);
    }
    if w {
        crate::json::lemma_obj_get_at(ms, "retry_count"@, 7);
        assert(ms[7] == m7);
    } else {
        crate::json::lemma_obj_get_at(ms, "retry_count"@, 7);
    }
    assert(ms[0] == m0 && ms[1] == m1 && ms[2] == m2 && ms[3] == m3 && ms[4] == m4 && ms[5] == m5
        && ms[6] == m6);
}

/// Law: a descriptor written to a wire object and read back is unchanged.
pub proof fn lemma_job_round_trip(d: JobDescV)
    requires
        spec_job_wf(d),
    ensures
        spec_decode_job(spec_job_json(d, true)) == Some(d),
{
    lemma_job_members_get(d, true);
    crate::digits::lemma_dec_lit_digits(d.retry_count);
    lemma_dec_val_of_lit(d.retry_count);
    let lit = spec_dec_lit(d.retry_count);
    assert(spec_lit_to_u8(lit) == Some(d.retry_count as u8));
    assert(spec_decode_job(spec_job_json(d, true)).unwrap() =~= d);
}

/// Law: the descriptor built at ingestion reads back unchanged, with its
/// retry counter at zero.
pub proof fn lemma_enqueue_round_trip(d: JobDescV)
    requires
        spec_job_wf(d),
        d.retry_count == 0,
    ensures
        spec_decode_job(spec_job_json(d, false)) == Some(d),
{
    lemma_job_members_get(d, false);
    assert(spec_decode_job(spec_job_json(d, false)).unwrap() =~= d);
}

/// The wire object of a well-formed descriptor is itself well-formed, so it
/// survives serialization.
pub proof fn lemma_job_json_wf(d: JobDescV, w: bool)
    requires
        spec_job_wf(d),
    ensures
        spec_json_wf(spec_job_json(d, w)),
{
    reveal_strlit("notification_id");
    reveal_strlit("recipient");
    reveal_strlit("recipient_type");
    reveal_strlit("sender");
    reveal_strlit("channel");
    reveal_strlit("template_id");
    reveal_strlit("payload");
    reveal_strlit("retry_count");
    let m0 = ("notification_id"@, JsonVal::Str(d.notification_id));
    let m1 = ("recipient"@, JsonVal::Str(d.recipient));
    let m2 = ("recipient_type"@, spec_opt_json(d.recipient_type));
    let m3 = ("sender"@, spec_opt_json(d.sender));
    let m4 = ("channel"@, JsonVal::Str(d.channel));
    let m5 = ("template_id"@, spec_opt_json(d.template_id));
    let m6 = ("payload"@, d.payload);
    let m7 = ("retry_count"@, JsonVal::Num(spec_dec_lit(d.retry_count)));
    lemma_dec_lit_wf(d.retry_count);
    assert(spec_json_member_wf(m0));
    assert(spec_json_member_wf(m1));
    assert(spec_json_member_wf(m2));
    assert(spec_json_member_wf(m3));
    assert(spec_json_member_wf(m4));
    assert(spec_json_member_wf(m5));
    assert(spec_json_member_wf(m6));
    assert(spec_json_member_wf(m7));
    let ms = spec_job_members(d, w);
    if w {
        assert(ms =~= seq![m0, m1, m2, m3, m4, m5, m6, m7]);
        let s7 = seq![m7];
        let s6 = seq![m6, m7];
        let s5 = seq![m5, m6, m7];
        let s4 = seq![m4, m5, m6, m7];
        let s3 = seq![m3, m4, m5, m6, m7];
        let s2 = seq![m2, m3, m4, m5, m6, m7];
        let s1 = seq![m1, m2, m3, m4, m5, m6, m7];
        assert(spec_json_obj_wf(Seq::<(Seq<char>, JsonVal)>::empty()));
        assert(s7.skip(1) =~= Seq::<(Seq<char>, JsonVal)>::empty());
        assert(spec_json_obj_wf(s7));
        assert(s6.skip(1) =~= s7);
        assert(spec_json_obj_wf(s6));
        assert(s5.skip(1) =~= s6);
        assert(spec_json_obj_wf(s5));
        assert(s4.skip(1) =~= s5);
        assert(spec_json_obj_wf(s4));
        assert(s3.skip(1) =~= s4);
        assert(spec_json_obj_wf(s3));
        assert(s2.skip(1) =~= s3);
        assert(spec_json_obj_wf(s2));
        assert(s1.skip(1) =~= s2);
        assert(spec_json_obj_wf(s1));
        assert(ms.skip(1) =~= s1);
        assert(spec_json_obj_wf(ms));
    } else {
        assert(ms =~= seq![m0, m1, m2, m3, m4, m5, m6]);
        let s6 = seq![m6];
        let s5 = seq![m5, m6];
        let s4 = seq![m4, m5, m6];
        let s3 = seq![m3, m4, m5, m6];
        let s2 = seq![m2, m3, m4, m5, m6];
        let s1 = seq![m1, m2, m3, m4, m5, m6];
        assert(spec_json_obj_wf(Seq::<(Seq<char>, JsonVal)>::empty()));
        assert(s6.skip(1) =~= Seq::<(Seq<char>, JsonVal)>::empty());
        assert(spec_json_obj_wf(s6));
        assert(s5.skip(1) =~= s6);
        assert(spec_json_obj_wf(s5));
        assert(s4.skip(1) =~= s5);
        assert(spec_json_obj_wf(s4));
        assert(s3.skip(1) =~= s4);
        assert(spec_json_obj_wf(s3));
        assert(s2.skip(1) =~= s3);
        assert(spec_json_obj_wf(s2));
        assert(s1.skip(1) =~= s2);
        assert(spec_json_obj_wf(s1));
        assert(ms.skip(1) =~= s1);
        assert(spec_json_obj_wf(ms));
    }
}

/// Law: serializing a descriptor onto the wire, parsing the text back and
/// reading the descriptor out yields the descriptor unchanged.
pub proof fn lemma_job_wire_round_trip(d: JobDescV)
    requires
        spec_job_wf(d),
    ensures
        crate::json::spec_parse_text(crate::json::spec_ser(spec_job_json(d, true))) == Some(
            spec_job_json(d, true),
        ),
        spec_decode_job(spec_job_json(d, true)) == Some(d),
{
    lemma_job_json_wf(d, true);
    crate::json::lemma_parse_serialize(spec_job_json(d, true));
    lemma_job_round_trip(d);
}

} // verus!
