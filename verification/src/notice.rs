//! The lines that tell the log what happened to an entity: at the level of
//! information for a write that took effect, at the level of an error for a
//! failure, each with the entity's kind and id.

use crate::mapper::MappingError;
use crate::model::{EntityKind, Key};
use crate::reconciler::{Action, Failure, Outcome, Reply, Status};
use crate::store::StoreError;
use vstd::prelude::*;
use vstd::string::StringExecFns;

verus! {

/// The level of a notice.
#[derive(Clone, Copy, Debug, PartialEq, Eq, Structural)]
pub enum Severity {
    Info,
    Error,
}

/// A line for the log and the level to write it at.
#[derive(Debug, PartialEq, Eq)]
pub struct Notice {
    pub severity: Severity,
    pub text: String,
}

/// The character of a decimal digit.
pub open spec fn digit(d: int) -> char {
    if d == 0 {
        '0'
    } else if d == 1 {
        '1'
    } else if d == 2 {
        '2'
    } else if d == 3 {
        '3'
    } else if d == 4 {
        '4'
    } else if d == 5 {
        '5'
    } else if d == 6 {
        '6'
    } else if d == 7 {
        '7'
    } else if d == 8 {
        '8'
    } else {
        '9'
    }
}

/// The decimal digits of a natural number, without leading zeros.
pub open spec fn digits(n: nat) -> Seq<char>
    decreases n,
{
    if n < 10 {
        seq![digit(n as int)]
    } else {
        digits(n / 10).push(digit((n % 10) as int))
    }
}

/// An integer in decimal, with a minus sign where it is negative.
pub open spec fn decimal_text(x: int) -> Seq<char> {
    if x < 0 {
        seq!['-'] + digits((-x) as nat)
    } else {
        digits(x as nat)
    }
}

fn digit_text(d: u64) -> (t: &'static str)
    requires
        d < 10,
    ensures
        t@ == seq![digit(d as int)],
{
    proof {
        reveal_strlit("0");
        reveal_strlit("1");
        reveal_strlit("2");
        reveal_strlit("3");
        reveal_strlit("4");
        reveal_strlit("5");
        reveal_strlit("6");
        reveal_strlit("7");
        reveal_strlit("8");
        reveal_strlit("9");
    }
    let t = if d == 0 {
        "0"
    } else if d == 1 {
        "1"
    } else if d == 2 {
        "2"
    } else if d == 3 {
        "3"
    } else if d == 4 {
        "4"
    } else if d == 5 {
        "5"
    } else if d == 6 {
        "6"
    } else if d == 7 {
        "7"
    } else if d == 8 {
        "8"
    } else {
        "9"
    };
    assert(t@ =~= seq![digit(d as int)]);
    t
}

fn push_digits(n: u64, out: &mut String)
    ensures
        final(out)@ == old(out)@ + digits(n as nat),
    decreases n,
{
    if n >= 10 {
        push_digits(n / 10, out);
    }
    out.append(digit_text(n % 10));
    assert(final(out)@ =~= old(out)@ + digits(n as nat));
}

/// Writes an integer in decimal.
pub fn decimal(x: i64) -> (text: String)
    ensures
        text@ == decimal_text(x as int),
{
    let mut text = String::new();
    if x < 0 {
        proof {
            reveal_strlit("-");
        }
        text.append("-");
        let below: i64 = -(x + 1);
        let size: u64 = below as u64 + 1;
        push_digits(size, &mut text);
        assert(text@ =~= decimal_text(x as int));
    } else {
        push_digits(x as u64, &mut text);
        assert(text@ =~= decimal_text(x as int));
    }
    text
}

/// The word for a kind of entity.
pub open spec fn kind_text(kind: EntityKind) -> Seq<char> {
    match kind {
        EntityKind::User => "user"@,
        EntityKind::Guild => "guild"@,
        EntityKind::Channel => "channel"@,
        EntityKind::Message => "message"@,
        EntityKind::Role => "role"@,
    }
}

/// The word for a kind of entity.
pub fn kind_name(kind: EntityKind) -> (name: &'static str)
    ensures
        name@ == kind_text(kind),
{
    match kind {
        EntityKind::User => "user",
        EntityKind::Guild => "guild",
        EntityKind::Channel => "channel",
        EntityKind::Message => "message",
        EntityKind::Role => "role",
    }
}

/// What went wrong at the store, in words.
pub open spec fn store_cause_text(e: StoreError) -> Seq<char> {
    match e {
        StoreError::Conflict => "a row with this id already exists"@,
        StoreError::NotFound => "no row has this id"@,
        StoreError::ReferentialViolation => "a row that it refers to does not exist"@,
        StoreError::Connection => "the store could not be reached"@,
        StoreError::Timeout => "the store did not answer in time"@,
    }
}

/// What went wrong at the store, in words.
pub fn store_cause(e: StoreError) -> (cause: &'static str)
    ensures
        cause@ == store_cause_text(e),
{
    match e {
        StoreError::Conflict => "a row with this id already exists",
        StoreError::NotFound => "no row has this id",
        StoreError::ReferentialViolation => "a row that it refers to does not exist",
        StoreError::Connection => "the store could not be reached",
        StoreError::Timeout => "the store did not answer in time",
    }
}

/// Why a reconciliation failed, in words.
pub open spec fn failure_text(f: Failure) -> Seq<char> {
    match f {
        Failure::Mapping(MappingError::MissingRequiredRelation) => "the snapshot names no guild"@,
        Failure::Store(e) => store_cause_text(e),
        Failure::OutOfTurn => "the store's reply does not answer the request"@,
    }
}

/// Why a reconciliation failed, in words.
pub fn failure_cause(f: Failure) -> (cause: &'static str)
    ensures
        cause@ == failure_text(f),
{
    match f {
        Failure::Mapping(MappingError::MissingRequiredRelation) => "the snapshot names no guild",
        Failure::Store(e) => store_cause(e),
        Failure::OutOfTurn => "the store's reply does not answer the request",
    }
}

/// Kind and id of an entity, as every notice begins.
pub open spec fn subject_text(kind: EntityKind, id: i64) -> Seq<char> {
    kind_text(kind) + " "@ + decimal_text(id as int) + ": "@
}

fn subject(kind: EntityKind, id: i64) -> (text: String)
    ensures
        text@ == subject_text(kind, id),
{
    let mut text = kind_name(kind).to_owned();
    text.append(" ");
    let number = decimal(id);
    text.append(number.as_str());
    text.append(": ");
    text
}

/// The text of the notice on a reconciled entity.
pub open spec fn outcome_text(o: Outcome) -> Seq<char> {
    subject_text(o.kind, o.id) + match o.status {
        Status::Created => "created"@,
        Status::Unchanged => "unchanged"@,
        Status::Synced => "synced"@,
        Status::Failed(f) => "failed: "@ + failure_text(f),
    }
}

/// The level of the notice on a reconciled entity.
pub open spec fn outcome_severity(o: Outcome) -> Severity {
    if o.status is Failed {
        Severity::Error
    } else {
        Severity::Info
    }
}

/// The notice on a reconciled entity: an error where it failed, with the
/// cause, else information on what became of the row.
pub fn outcome_notice(o: &Outcome) -> (notice: Notice)
    ensures
        notice.severity == outcome_severity(*o),
        notice.text@ == outcome_text(*o),
{
    let mut text = subject(o.kind, o.id);
    match o.status {
        Status::Created => {
            text.append("created");
            Notice { severity: Severity::Info, text }
        },
        Status::Unchanged => {
            text.append("unchanged");
            Notice { severity: Severity::Info, text }
        },
        Status::Synced => {
            text.append("synced");
            Notice { severity: Severity::Info, text }
        },
        Status::Failed(f) => {
            text.append("failed: ");
            text.append(failure_cause(f));
            assert(text@ =~= outcome_text(*o));
            Notice { severity: Severity::Error, text }
        },
    }
}

/// The text of the notice that the feed is connected under `name`.
pub open spec fn connected_text(name: Seq<char>) -> Seq<char> {
    name + " is connected!"@
}

/// The notice that the feed is connected under `name`.
pub fn connected_notice(name: &str) -> (notice: Notice)
    ensures
        notice.severity == Severity::Info,
        notice.text@ == connected_text(name@),
{
    let mut text = name.to_owned();
    text.append(" is connected!");
    Notice { severity: Severity::Info, text }
}

/// The name of the store operation that an action asks for.
pub open spec fn operation_text(action: Action) -> Seq<char> {
    match action {
        Action::Read(_) => "read"@,
        Action::Create(_) => "create"@,
        Action::Upsert(_) => "upsert"@,
        Action::Update(_) => "update"@,
        Action::Delete(_) => "delete"@,
    }
}

/// The key of the row that an action is about.
pub open spec fn action_key(action: Action) -> Key {
    match action {
        Action::Read(k) => k,
        Action::Create(r) => r@.key(),
        Action::Upsert(r) => r@.key(),
        Action::Update(r) => r@.key(),
        Action::Delete(k) => k,
    }
}

/// Kind and id of the row that an action is about, then the operation.
pub open spec fn action_text(action: Action) -> Seq<char> {
    subject_text(action_key(action).kind, action_key(action).id) + operation_text(action)
}

/// Whether the reply tells of a change to the tables: a write that took
/// effect, or a delete that took a row out.
pub open spec fn changed(action: Action, reply: Reply) -> bool {
    match reply {
        Reply::Written => true,
        Reply::Row(found) => action is Delete && found is Some,
        Reply::Failed(_) => false,
    }
}

/// Whether `notice` is what the log is told of `reply` to `action`: of a
/// change to the tables, at the level of information, kind, id and the
/// operation; of a failure, at the level of an error, kind, id, the operation
/// and the cause; and nothing of a reply that is neither.
pub open spec fn tells(action: Action, reply: Reply, notice: Option<Notice>) -> bool {
    if reply is Failed {
        &&& notice matches Some(n)
        &&& n.severity == Severity::Error
        &&& n.text@ == action_text(action) + " failed: "@ + store_cause_text(reply->Failed_0)
    } else if changed(action, reply) {
        &&& notice matches Some(n)
        &&& n.severity == Severity::Info
        &&& n.text@ == action_text(action) + " succeeded"@
    } else {
        notice is None
    }
}

fn action_head(action: &Action) -> (text: String)
    ensures
        text@ == action_text(*action),
{
    match action {
        Action::Read(k) => {
            let mut text = subject(k.kind, k.id);
            text.append("read");
            text
        },
        Action::Create(r) => {
            let mut text = subject(r.kind(), r.id());
            text.append("create");
            text
        },
        Action::Upsert(r) => {
            let mut text = subject(r.kind(), r.id());
            text.append("upsert");
            text
        },
        Action::Update(r) => {
            let mut text = subject(r.kind(), r.id());
            text.append("update");
            text
        },
        Action::Delete(k) => {
            let mut text = subject(k.kind, k.id);
            text.append("delete");
            text
        },
    }
}

fn is_change(action: &Action, reply: &Reply) -> (b: bool)
    ensures
        b == changed(*action, *reply),
{
    match reply {
        Reply::Written => true,
        Reply::Row(found) => match action {
            Action::Delete(_) => found.is_some(),
            _ => false,
        },
        Reply::Failed(_) => false,
    }
}

/// The notice on the store's reply to a request, if the reply calls for one.
pub fn reply_notice(action: &Action, reply: &Reply) -> (notice: Option<Notice>)
    ensures
        tells(*action, *reply, notice),
{
    match reply {
        Reply::Failed(e) => {
            let mut text = action_head(action);
            text.append(" failed: ");
            text.append(store_cause(*e));
            Some(Notice { severity: Severity::Error, text })
        },
        _ => {
            if is_change(action, reply) {
                let mut text = action_head(action);
                text.append(" succeeded");
                Some(Notice { severity: Severity::Info, text })
            } else {
                None
            }
        },
    }
}

} // verus!
