use vstd::prelude::*;
use crate::registry::{Connection, ConnectionRegistry};

verus! {

#[verifier::external_type_specification]
#[verifier::external_body]
#[verifier::reject_recursive_types(T)]
pub struct ExUnboundedSender<T>(futures_channel::mpsc::UnboundedSender<T>);

#[verifier::external_type_specification]
#[verifier::external_body]
pub struct ExJsonValue(serde_json::Value);

/// The outbound side of a live connection: a handle to a queue of text
/// frames that the connection task drains.
pub type Outbox = futures_channel::mpsc::UnboundedSender<String>;

/// The frames handed to the channel through this handle, oldest first.
pub uninterp spec fn frames_handed(channel: futures_channel::mpsc::UnboundedSender<String>) -> Seq<Seq<char>>;

/// Relies on futures_channel's UnboundedSender::unbounded_send: the frame is
/// handed to the channel without blocking, and queued unless the receiving
/// side is gone.
#[verifier::external_body]
fn push_frame(channel: &mut Outbox, frame: String) -> (queued: bool)
    ensures
        frames_handed(*final(channel)) == frames_handed(*old(channel)).push(frame@),
{
    channel.unbounded_send(frame).is_ok()
}

/// Relies on UnboundedSender's Clone: another handle to the same channel,
/// through which nothing has been handed yet.
#[verifier::external_body]
fn new_handle(channel: &Outbox) -> (r: Outbox)
    ensures
        frames_handed(r) == Seq::<Seq<char>>::empty(),
{
    channel.clone()
}

/// Relies on serde_json::to_string: the payload as JSON text. Writing a
/// `Value` into a string cannot fail.
#[verifier::external_body]
fn payload_text(payload: &serde_json::Value) -> (r: Option<String>)
    ensures
        r is Some,
{
    serde_json::to_string(payload).ok()
}

/// One connection as copied out of the registry for delivery: its subject,
/// its role, and a handle to its channel.
pub struct Recipient {
    pub subject: String,
    pub role: String,
    pub outbox: Outbox,
}

/// The frames handed to a recipient's channel through its handle.
pub open spec fn sent(r: Recipient) -> Seq<Seq<char>> {
    frames_handed(r.outbox)
}

/// Whether `r` is a copy of the registry entries `m`, one recipient per entry
/// with its subject and role, through handles that have sent nothing yet.
pub open spec fn is_snapshot(m: Map<Seq<char>, Connection<Outbox>>, r: Seq<Recipient>) -> bool {
    &&& r.len() == m.dom().len()
    &&& forall|i: int| 0 <= i < r.len() ==> m.contains_key(#[trigger] r[i].subject@) && m[r[i].subject@].role@ == r[i].role@
    &&& forall|i: int| 0 <= i < r.len() ==> sent(#[trigger] r[i]) == Seq::<Seq<char>>::empty()
    &&& forall|k: Seq<char>| #[trigger] m.contains_key(k) ==> exists|i: int| 0 <= i < r.len() && #[trigger] r[i].subject@ == k
    &&& forall|i: int, j: int| 0 <= i < j < r.len() ==> r[i].subject@ != r[j].subject@
}

/// Whether two recipient lists name the same subjects and roles, in order.
pub open spec fn same_recipients(a: Seq<Recipient>, b: Seq<Recipient>) -> bool {
    &&& a.len() == b.len()
    &&& forall|i: int| 0 <= i < a.len() ==> (#[trigger] a[i]).subject@ == b[i].subject@ && a[i].role@ == b[i].role@
}

/// Whether a recipient is one that a delivery for `subject` and `role` takes;
/// `None` takes any.
pub open spec fn picked(r: Recipient, subject: Option<Seq<char>>, role: Option<Seq<char>>) -> bool {
    &&& (subject matches Some(s) ==> r.subject@ == s)
    &&& (role matches Some(w) ==> r.role@ == w)
}

pub open spec fn text_opt(s: Option<&str>) -> Option<Seq<char>> {
    match s {
        Some(t) => Some(t@),
        None => None,
    }
}

/// Copies out every connection of the registry, each once, for delivery
/// after the registry is let go.
pub fn snapshot(registry: &ConnectionRegistry<Outbox>) -> (r: Vec<Recipient>)
    requires
        registry.wf(),
    ensures
        is_snapshot(registry@, r@),
{
    let conns = registry.connections();
    let mut out: Vec<Recipient> = Vec::new();
    let mut i: usize = 0;
    while i < conns.len()
        invariant
            i <= conns@.len(),
            out@.len() == i,
            forall|j: int| 0 <= j < i ==> (#[trigger] out@[j]).subject@ == conns@[j].subject@ && out@[j].role@ == conns@[j].role@,
            forall|j: int| 0 <= j < i ==> sent(#[trigger] out@[j]) == Seq::<Seq<char>>::empty(),
        decreases conns@.len() - i,
    {
        let c = &conns[i];
        out.push(Recipient { subject: c.subject.clone(), role: c.role.clone(), outbox: new_handle(&c.channel) });
        i = i + 1;
    }
    proof {
        assert forall|k: Seq<char>| #[trigger] registry@.contains_key(k) implies exists|j: int| 0 <= j < out@.len() && #[trigger] out@[j].subject@ == k by {
            let j = choose|j: int| 0 <= j < conns@.len() && #[trigger] conns@[j].subject@ == k;
            assert(out@[j].subject@ == k);
        }
        assert forall|a: int, b: int| 0 <= a < b < out@.len() implies out@[a].subject@ != out@[b].subject@ by {
            assert(out@[a].subject@ == conns@[a].subject@);
            assert(out@[b].subject@ == conns@[b].subject@);
        }
        assert forall|j: int| 0 <= j < out@.len() implies registry@.contains_key(#[trigger] out@[j].subject@) && registry@[out@[j].subject@].role@ == out@[j].role@ by {
            assert(out@[j].subject@ == conns@[j].subject@);
            assert(registry@.contains_key(conns@[j].subject@));
        }
    }
    out
}

/// Copies out the connection of `subject`, if it has one.
pub fn snapshot_of(registry: &ConnectionRegistry<Outbox>, subject: &str) -> (r: Vec<Recipient>)
    requires
        registry.wf(),
    ensures
        r@.len() == (if registry@.contains_key(subject@) { 1int } else { 0int }),
        r@.len() == 1 ==> r@[0].subject@ == subject@ && r@[0].role@ == registry@[subject@].role@ && sent(r@[0]) == Seq::<Seq<char>>::empty(),
{
    let mut out: Vec<Recipient> = Vec::new();
    match registry.lookup(subject) {
        Some(c) => {
            out.push(Recipient { subject: c.subject.clone(), role: c.role.clone(), outbox: new_handle(&c.channel) });
        },
        None => {},
    }
    out
}

/// Hands `frame` once to each recipient that `subject` and `role` pick, in
/// order; a refused push does not stop the others.
fn fan_out(targets: &mut Vec<Recipient>, subject: Option<&str>, role: Option<&str>, frame: &str)
    ensures
        same_recipients(old(targets)@, final(targets)@),
        forall|i: int| 0 <= i < old(targets)@.len() ==> sent(#[trigger] final(targets)@[i]) == if picked(old(targets)@[i], text_opt(subject), text_opt(role)) {
            sent(old(targets)@[i]).push(frame@)
        } else {
            sent(old(targets)@[i])
        },
{
    let ghost start = targets@;
    let mut i: usize = 0;
    while i < targets.len()
        invariant
            i <= targets@.len(),
            same_recipients(start, targets@),
            forall|j: int| 0 <= j < i ==> sent(#[trigger] targets@[j]) == if picked(start[j], text_opt(subject), text_opt(role)) {
                sent(start[j]).push(frame@)
            } else {
                sent(start[j])
            },
            forall|j: int| i <= j < targets@.len() ==> #[trigger] targets@[j] == start[j],
        decreases targets@.len() - i,
    {
        let take_subject = match subject {
            Some(s) => crate::text::same_text(targets[i].subject.as_str(), s),
            None => true,
        };
        let take_role = match role {
            Some(w) => crate::text::same_text(targets[i].role.as_str(), w),
            None => true,
        };
        if take_subject && take_role {
            let t = &mut targets[i];
            push_frame(&mut t.outbox, frame.to_owned());
        }
        i = i + 1;
    }
}

/// Hands `frame` to the recipient of `subject`, if the list has one; every
/// other recipient is left as it was.
pub fn send_text_to_user(targets: &mut Vec<Recipient>, subject: &str, frame: &str)
    ensures
        same_recipients(old(targets)@, final(targets)@),
        forall|i: int| 0 <= i < old(targets)@.len() ==> sent(#[trigger] final(targets)@[i]) == if old(targets)@[i].subject@ == subject@ {
            sent(old(targets)@[i]).push(frame@)
        } else {
            sent(old(targets)@[i])
        },
{
    fan_out(targets, Some(subject), None, frame);
}

/// Hands `frame` once to every recipient whose role is exactly `role`, and to
/// no other.
pub fn send_text_to_role(targets: &mut Vec<Recipient>, role: &str, frame: &str)
    ensures
        same_recipients(old(targets)@, final(targets)@),
        forall|i: int| 0 <= i < old(targets)@.len() ==> sent(#[trigger] final(targets)@[i]) == if old(targets)@[i].role@ == role@ {
            sent(old(targets)@[i]).push(frame@)
        } else {
            sent(old(targets)@[i])
        },
{
    fan_out(targets, None, Some(role), frame);
}

/// Hands `frame` once to every recipient.
pub fn send_text_to_all(targets: &mut Vec<Recipient>, frame: &str)
    ensures
        same_recipients(old(targets)@, final(targets)@),
        forall|i: int| 0 <= i < old(targets)@.len() ==> sent(#[trigger] final(targets)@[i]) == sent(old(targets)@[i]).push(frame@),
{
    fan_out(targets, None, None, frame);
}

/// How often `subject` occurs in `ids`.
pub open spec fn occurrences(ids: Seq<String>, subject: Seq<char>) -> nat
    decreases ids.len(),
{
    if ids.len() == 0 {
        0
    } else {
        occurrences(ids.drop_last(), subject) + if ids.last()@ == subject { 1nat } else { 0nat }
    }
}

/// `frame`, `n` times.
pub open spec fn repeated(frame: Seq<char>, n: nat) -> Seq<Seq<char>> {
    Seq::new(n, |i: int| frame)
}

/// Hands `frame` to the recipient of each subject of `subjects` in turn: each
/// recipient gets it once for every time its subject is listed.
pub fn send_text_to_users(targets: &mut Vec<Recipient>, subjects: &Vec<String>, frame: &str)
    ensures
        same_recipients(old(targets)@, final(targets)@),
        forall|i: int| 0 <= i < old(targets)@.len() ==> sent(#[trigger] final(targets)@[i])
            == sent(old(targets)@[i]) + repeated(frame@, occurrences(subjects@, old(targets)@[i].subject@)),
{
    let ghost start = targets@;
    let mut k: usize = 0;
    while k < subjects.len()
        invariant
            k <= subjects@.len(),
            same_recipients(start, targets@),
            forall|i: int| 0 <= i < start.len() ==> sent(#[trigger] targets@[i])
                == sent(start[i]) + repeated(frame@, occurrences(subjects@.subrange(0, k as int), start[i].subject@)),
        decreases subjects@.len() - k,
    {
        let ghost before = targets@;
        send_text_to_user(targets, subjects[k].as_str(), frame);
        proof {
            let done = subjects@.subrange(0, k as int);
            let next = subjects@.subrange(0, k + 1);
            assert(next.drop_last() == done);
            assert forall|i: int| 0 <= i < start.len() implies sent(#[trigger] targets@[i])
                == sent(start[i]) + repeated(frame@, occurrences(next, start[i].subject@)) by {
                let n = occurrences(done, start[i].subject@);
                assert(before[i].subject@ == start[i].subject@);
                if subjects@[k as int]@ == start[i].subject@ {
                    assert(repeated(frame@, n + 1) =~= repeated(frame@, n).push(frame@));
                    assert((sent(start[i]) + repeated(frame@, n)).push(frame@) =~= sent(start[i]) + repeated(frame@, n).push(frame@));
                }
            }
        }
        k = k + 1;
    }
    assert(subjects@.subrange(0, subjects@.len() as int) == subjects@);
}

/// Sends `payload`, as JSON text, to the recipient of `user_id`; returns the
/// text sent.
pub fn send_to_user(targets: &mut Vec<Recipient>, user_id: &str, payload: &serde_json::Value) -> (frame: String)
    ensures
        same_recipients(old(targets)@, final(targets)@),
        forall|i: int| 0 <= i < old(targets)@.len() ==> sent(#[trigger] final(targets)@[i]) == if old(targets)@[i].subject@ == user_id@ {
            sent(old(targets)@[i]).push(frame@)
        } else {
            sent(old(targets)@[i])
        },
{
    let text = match payload_text(payload) {
        Some(t) => t,
        None => String::new(),
    };
    send_text_to_user(targets, user_id, text.as_str());
    text
}

/// Sends `payload`, as JSON text, to the recipient of each of `user_ids` in
/// turn; returns the text sent.
pub fn send_to_users(targets: &mut Vec<Recipient>, user_ids: &Vec<String>, payload: &serde_json::Value) -> (frame: String)
    ensures
        same_recipients(old(targets)@, final(targets)@),
        forall|i: int| 0 <= i < old(targets)@.len() ==> sent(#[trigger] final(targets)@[i])
            == sent(old(targets)@[i]) + repeated(frame@, occurrences(user_ids@, old(targets)@[i].subject@)),
{
    let text = match payload_text(payload) {
        Some(t) => t,
        None => String::new(),
    };
    send_text_to_users(targets, user_ids, text.as_str());
    text
}

/// Sends `payload`, as JSON text, to every recipient whose role is exactly
/// `role`; returns the text sent.
pub fn send_to_role(targets: &mut Vec<Recipient>, role: &str, payload: &serde_json::Value) -> (frame: String)
    ensures
        same_recipients(old(targets)@, final(targets)@),
        forall|i: int| 0 <= i < old(targets)@.len() ==> sent(#[trigger] final(targets)@[i]) == if old(targets)@[i].role@ == role@ {
            sent(old(targets)@[i]).push(frame@)
        } else {
            sent(old(targets)@[i])
        },
{
    let text = match payload_text(payload) {
        Some(t) => t,
        None => String::new(),
    };
    send_text_to_role(targets, role, text.as_str());
    text
}

/// Sends `payload`, as JSON text, to every recipient; returns the text sent.
pub fn send_to_all(targets: &mut Vec<Recipient>, payload: &serde_json::Value) -> (frame: String)
    ensures
        same_recipients(old(targets)@, final(targets)@),
        forall|i: int| 0 <= i < old(targets)@.len() ==> sent(#[trigger] final(targets)@[i]) == sent(old(targets)@[i]).push(frame@),
{
    let text = match payload_text(payload) {
        Some(t) => t,
        None => String::new(),
    };
    send_text_to_all(targets, text.as_str());
    text
}

} // verus!
