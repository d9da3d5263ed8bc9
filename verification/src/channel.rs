//! Delivery channels, push recipient kinds, and notification status values.

use vstd::prelude::*;

verus! {

/// Outbound channel of a notification.
#[derive(Clone, Copy, Debug, PartialEq, Eq, Structural)]
pub enum NotificationChannel {
    Push,
    Email,
    Sms,
}

/// How a push recipient string is to be interpreted by the provider.
#[derive(Clone, Copy, Debug, PartialEq, Eq, Structural)]
pub enum PushRecipientType {
    Token,
    Topic,
    Condition,
}

/// Durable status of a notification row.
#[derive(Clone, Copy, Debug, PartialEq, Eq, Structural)]
pub enum NotificationStatus {
    Pending,
    Queued,
    Sent,
    Failed,
}

/// The wire name of a channel.
pub open spec fn spec_channel_str(c: NotificationChannel) -> Seq<char> {
    match c {
        NotificationChannel::Push => "push"@,
        NotificationChannel::Email => "email"@,
        NotificationChannel::Sms => "sms"@,
    }
}

/// The wire name of a push recipient kind.
pub open spec fn spec_recipient_type_str(t: PushRecipientType) -> Seq<char> {
    match t {
        PushRecipientType::Token => "token"@,
        PushRecipientType::Topic => "topic"@,
        PushRecipientType::Condition => "condition"@,
    }
}

/// The database column value of a status.
pub open spec fn spec_status_str(s: NotificationStatus) -> Seq<char> {
    match s {
        NotificationStatus::Pending => "pending"@,
        NotificationStatus::Queued => "queued"@,
        NotificationStatus::Sent => "sent"@,
        NotificationStatus::Failed => "failed"@,
    }
}

/// A status from which no further transition happens.
pub open spec fn spec_is_terminal(s: NotificationStatus) -> bool {
    s == NotificationStatus::Sent || s == NotificationStatus::Failed
}

impl NotificationChannel {
    pub fn as_str(&self) -> (r: &'static str)
        ensures
            r@ == spec_channel_str(*self),
    {
        match self {
            NotificationChannel::Push => "push",
            NotificationChannel::Email => "email",
            NotificationChannel::Sms => "sms",
        }
    }
}

impl PushRecipientType {
    pub fn as_str(&self) -> (r: &'static str)
        ensures
            r@ == spec_recipient_type_str(*self),
    {
        match self {
            PushRecipientType::Token => "token",
            PushRecipientType::Topic => "topic",
            PushRecipientType::Condition => "condition",
        }
    }
}

impl NotificationStatus {
    pub fn as_str(&self) -> (r: &'static str)
        ensures
            r@ == spec_status_str(*self),
    {
        match self {
            NotificationStatus::Pending => "pending",
            NotificationStatus::Queued => "queued",
            NotificationStatus::Sent => "sent",
            NotificationStatus::Failed => "failed",
        }
    }

    /// Whether this status is terminal; `sent` and `failed` are the only
    /// terminal statuses.
    pub fn is_terminal(&self) -> (r: bool)
        ensures
            r == spec_is_terminal(*self),
    {
        match self {
            NotificationStatus::Sent => true,
            NotificationStatus::Failed => true,
            _ => false,
        }
    }
}

/// The allowed transitions of the status column:
/// `pending -> queued -> { sent, failed }`, with the delivery pipeline
/// allowed to take a pending row straight to a terminal status once its job
/// is on the queue.
pub open spec fn spec_status_step_allowed(
    from: NotificationStatus,
    to: NotificationStatus,
) -> bool {
    ||| (from == NotificationStatus::Pending && to != NotificationStatus::Pending)
    ||| (from == NotificationStatus::Queued && spec_is_terminal(to))
    ||| (spec_is_terminal(from) && from == to)
}

/// Law: the terminal statuses are exactly `sent` and `failed`, and a
/// terminal status never steps to a different one.
pub proof fn lemma_terminal_statuses(s: NotificationStatus, t: NotificationStatus)
    ensures
        spec_is_terminal(s) <==> (s == NotificationStatus::Sent || s
            == NotificationStatus::Failed),
        spec_is_terminal(s) && spec_status_step_allowed(s, t) ==> t == s,
{
}

} // verus!
