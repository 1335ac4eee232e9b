use vstd::prelude::*;
use crate::text::same_text;

verus! {

/// One live connection of a subject: the subject's id, the id that the
/// registry gave the connection when it was installed, the subject's role at
/// connect time, and its outbound channel.
pub struct Connection<C> {
    pub subject: String,
    pub id: u64,
    pub role: String,
    pub channel: C,
}

/// The set of live connections, at most one per subject. The registry hands
/// out a fresh id on every `connect`, so a connection task can later remove
/// its own entry without touching one that has replaced it.
pub struct ConnectionRegistry<C> {
    entries: Vec<Connection<C>>,
    by_subject: Ghost<Map<Seq<char>, Connection<C>>>,
    issued: Ghost<Map<u64, Seq<char>>>,
    next_id: u64,
}

/// The entries after a compare-and-remove of `subject` by the connection
/// with id `id`: removed where that connection is still installed, else kept.
pub open spec fn after_disconnect<C>(m: Map<Seq<char>, Connection<C>>, subject: Seq<char>, id: u64) -> Map<Seq<char>, Connection<C>> {
    if m.contains_key(subject) && m[subject].id == id {
        m.remove(subject)
    } else {
        m
    }
}

impl<C> ConnectionRegistry<C> {
    /// The entries, by subject.
    pub closed spec fn view(&self) -> Map<Seq<char>, Connection<C>> {
        self.by_subject@
    }

    /// The subject that each id handed out so far was handed out for.
    pub closed spec fn issued(&self) -> Map<u64, Seq<char>> {
        self.issued@
    }

    /// The id that the next `connect` will hand out.
    pub closed spec fn next_id(&self) -> u64 {
        self.next_id
    }

    /// The list holds each subject once, and exactly the entries of the view;
    /// every installed id was issued for its own subject, before the next one.
    pub closed spec fn wf(&self) -> bool {
        &&& self.by_subject@.dom().finite()
        &&& self.entries@.len() == self.by_subject@.dom().len()
        &&& forall|i: int| 0 <= i < self.entries@.len() ==> self.by_subject@.contains_key(#[trigger] self.entries@[i].subject@)
            && self.by_subject@[self.entries@[i].subject@] == self.entries@[i]
        &&& forall|k: Seq<char>| #[trigger] self.by_subject@.contains_key(k) ==> exists|i: int| 0 <= i < self.entries@.len() && #[trigger] self.entries@[i].subject@ == k
        &&& forall|i: int, j: int| 0 <= i < j < self.entries@.len() ==> self.entries@[i].subject@ != self.entries@[j].subject@
        &&& forall|k: Seq<char>| #[trigger] self.by_subject@.contains_key(k) ==> self.by_subject@[k].subject@ == k
            && self.issued@.contains_key(self.by_subject@[k].id) && self.issued@[self.by_subject@[k].id] == k
        &&& forall|id: u64| #[trigger] self.issued@.contains_key(id) ==> id < self.next_id
    }

    pub fn new() -> (r: Self)
        ensures
            r.wf(),
            r@ == Map::<Seq<char>, Connection<C>>::empty(),
            r.issued() == Map::<u64, Seq<char>>::empty(),
            r.next_id() == 0,
    {
        ConnectionRegistry { entries: Vec::new(), by_subject: Ghost(Map::empty()), issued: Ghost(Map::empty()), next_id: 0 }
    }

    /// The position of `subject` in the list, if it has an entry.
    fn find(&self, subject: &str) -> (r: Option<usize>)
        requires
            self.wf(),
        ensures
            match r {
                Some(i) => i < self.entries@.len() && self.entries@[i as int].subject@ == subject@,
                None => !self@.contains_key(subject@),
            },
    {
        let mut i: usize = 0;
        while i < self.entries.len()
            invariant
                self.wf(),
                i <= self.entries@.len(),
                forall|j: int| 0 <= j < i ==> self.entries@[j].subject@ != subject@,
            decreases self.entries@.len() - i,
        {
            if same_text(self.entries[i].subject.as_str(), subject) {
                return Some(i);
            }
            i = i + 1;
        }
        None
    }

    /// Installs `channel` as the connection of `subject`, replacing any earlier
    /// one, and returns the id of the new entry.
    pub fn connect(&mut self, subject: String, role: String, channel: C) -> (id: u64)
        requires
            old(self).wf(),
            old(self).next_id() < u64::MAX,
        ensures
            final(self).wf(),
            id == old(self).next_id(),
            final(self).next_id() == id + 1,
            final(self).issued() == old(self).issued().insert(id, subject@),
            final(self)@ == old(self)@.insert(subject@, Connection { subject, id, role, channel }),
    {
        let id = self.next_id;
        let ghost key = subject@;
        let conn = Connection { subject, id, role, channel };
        let ghost c = conn;
        let found = self.find(conn.subject.as_str());
        let ghost before = self.entries@;
        let ghost old_map = self.by_subject@;
        match found {
            Some(i) => {
                self.entries.set(i, conn);
            },
            None => {
                self.entries.push(conn);
            },
        }
        self.by_subject = Ghost(self.by_subject@.insert(key, c));
        self.issued = Ghost(self.issued@.insert(id, key));
        self.next_id = id + 1;
        proof {
            let m = self.by_subject@;
            match found {
                Some(i) => {
                    assert(old_map.contains_key(key));
                    assert(m.dom() =~= old_map.dom());
                    assert forall|k: Seq<char>| #[trigger] m.contains_key(k) implies exists|j: int| 0 <= j < self.entries@.len() && #[trigger] self.entries@[j].subject@ == k by {
                        if k == key {
                            assert(self.entries@[i as int].subject@ == k);
                        } else {
                            let j = choose|j: int| 0 <= j < before.len() && #[trigger] before[j].subject@ == k;
                            assert(self.entries@[j].subject@ == k);
                        }
                    }
                },
                None => {
                    assert(m.dom() =~= old_map.dom().insert(key));
                    assert forall|k: Seq<char>| #[trigger] m.contains_key(k) implies exists|j: int| 0 <= j < self.entries@.len() && #[trigger] self.entries@[j].subject@ == k by {
                        if k == key {
                            assert(self.entries@[before.len() as int].subject@ == k);
                        } else {
                            let j = choose|j: int| 0 <= j < before.len() && #[trigger] before[j].subject@ == k;
                            assert(self.entries@[j].subject@ == k);
                        }
                    }
                },
            }
        }
        id
    }

    /// Removes the entry of `subject` only where it is still the connection
    /// with id `id`; says whether it did.
    pub fn disconnect(&mut self, subject: &str, id: u64) -> (removed: bool)
        requires
            old(self).wf(),
        ensures
            final(self).wf(),
            final(self).next_id() == old(self).next_id(),
            final(self).issued() == old(self).issued(),
            removed == (old(self)@.contains_key(subject@) && old(self)@[subject@].id == id),
            final(self)@ == after_disconnect(old(self)@, subject@, id),
    {
        let found = self.find(subject);
        match found {
            Some(i) => {
                if self.entries[i].id == id {
                    let ghost before = self.entries@;
                    let ghost old_map = self.by_subject@;
                    let ghost key = subject@;
                    self.entries.remove(i);
                    self.by_subject = Ghost(self.by_subject@.remove(key));
                    proof {
                        let m = self.by_subject@;
                        assert(old_map.contains_key(key));
                        assert(m.dom() =~= old_map.dom().remove(key));
                        assert forall|j: int| 0 <= j < self.entries@.len() implies m.contains_key(#[trigger] self.entries@[j].subject@)
                            && m[self.entries@[j].subject@] == self.entries@[j] by {
                            if j < i {
                                assert(self.entries@[j] == before[j]);
                            } else {
                                assert(self.entries@[j] == before[j + 1]);
                            }
                        }
                        assert forall|k: Seq<char>| #[trigger] m.contains_key(k) implies exists|j: int| 0 <= j < self.entries@.len() && #[trigger] self.entries@[j].subject@ == k by {
                            let j = choose|j: int| 0 <= j < before.len() && #[trigger] before[j].subject@ == k;
                            if j < i {
                                assert(self.entries@[j].subject@ == k);
                            } else {
                                assert(self.entries@[j - 1].subject@ == k);
                            }
                        }
                        assert forall|a: int, b: int| 0 <= a < b < self.entries@.len() implies self.entries@[a].subject@ != self.entries@[b].subject@ by {
                            let a0 = if a < i { a } else { a + 1 };
                            let b0 = if b < i { b } else { b + 1 };
                            assert(self.entries@[a] == before[a0]);
                            assert(self.entries@[b] == before[b0]);
                        }
                    }
                    true
                } else {
                    false
                }
            },
            None => false,
        }
    }

    /// The entry of `subject`, if there is one.
    pub fn lookup(&self, subject: &str) -> (r: Option<&Connection<C>>)
        requires
            self.wf(),
        ensures
            match r {
                Some(c) => self@.contains_key(subject@) && *c == self@[subject@] && c.subject@ == subject@,
                None => !self@.contains_key(subject@),
            },
    {
        match self.find(subject) {
            Some(i) => Some(&self.entries[i]),
            None => None,
        }
    }

    /// Whether another `connect` can be given a fresh id.
    pub fn has_fresh_id(&self) -> (r: bool)
        ensures
            r == (self.next_id() < u64::MAX),
    {
        self.next_id < u64::MAX
    }

    /// The number of subjects with a live connection.
    pub fn len(&self) -> (n: usize)
        requires
            self.wf(),
        ensures
            n == self@.dom().len(),
    {
        self.entries.len()
    }

    /// Every entry, each subject once; a point-in-time view for copying out.
    pub fn connections(&self) -> (r: &Vec<Connection<C>>)
        requires
            self.wf(),
        ensures
            r@.len() == self@.dom().len(),
            forall|i: int| 0 <= i < r@.len() ==> self@.contains_key(#[trigger] r@[i].subject@) && self@[r@[i].subject@] == r@[i],
            forall|k: Seq<char>| #[trigger] self@.contains_key(k) ==> exists|i: int| 0 <= i < r@.len() && #[trigger] r@[i].subject@ == k,
            forall|i: int, j: int| 0 <= i < j < r@.len() ==> r@[i].subject@ != r@[j].subject@,
    {
        &self.entries
    }

    /// Every installed connection was issued for its own subject, so no
    /// entry holds an id that was issued for another subject.
    pub proof fn lemma_ids_belong_to_subjects(&self, id: u64, subject: Seq<char>)
        requires
            self.wf(),
            self.issued().contains_key(id),
            self.issued()[id] == subject,
        ensures
            forall|k: Seq<char>| #[trigger] self@.contains_key(k) && self@[k].id == id ==> k == subject,
    {
    }
}

/// One operation on the registry, for stating what a run of them does.
pub enum RegistryOp<C> {
    Connect(Seq<char>, Connection<C>),
    Disconnect(Seq<char>, u64),
}

/// The subject that an operation is about.
pub open spec fn op_subject<C>(op: RegistryOp<C>) -> Seq<char> {
    match op {
        RegistryOp::Connect(s, _) => s,
        RegistryOp::Disconnect(s, _) => s,
    }
}

/// The entries after one operation, as `connect` and `disconnect` state it.
pub open spec fn apply_op<C>(m: Map<Seq<char>, Connection<C>>, op: RegistryOp<C>) -> Map<Seq<char>, Connection<C>> {
    match op {
        RegistryOp::Connect(s, c) => m.insert(s, c),
        RegistryOp::Disconnect(s, id) => after_disconnect(m, s, id),
    }
}

/// The entries after a run of operations, in order, one at a time (as the
/// lock around a shared registry orders the operations of concurrent tasks).
pub open spec fn apply_ops<C>(m: Map<Seq<char>, Connection<C>>, ops: Seq<RegistryOp<C>>) -> Map<Seq<char>, Connection<C>>
    decreases ops.len(),
{
    if ops.len() == 0 {
        m
    } else {
        apply_op(apply_ops(m, ops.drop_last()), ops.last())
    }
}

/// A second connect of the same subject replaces the first: the subject still
/// has exactly one entry, the newer one, and no other subject is touched.
pub proof fn lemma_reconnect_replaces<C>(m: Map<Seq<char>, Connection<C>>, subject: Seq<char>, first: Connection<C>, second: Connection<C>)
    requires
        m.dom().finite(),
    ensures
        m.insert(subject, first).insert(subject, second)[subject] == second,
        m.insert(subject, first).insert(subject, second).dom() == m.insert(subject, first).dom(),
        m.insert(subject, first).insert(subject, second).dom().len() == m.insert(subject, first).dom().len(),
        m.insert(subject, first).insert(subject, second) == m.insert(subject, second),
{
    assert(m.insert(subject, first).insert(subject, second).dom() =~= m.insert(subject, first).dom());
    assert(m.insert(subject, first).insert(subject, second) =~= m.insert(subject, second));
}

/// A disconnect by a connection that has since been replaced leaves the
/// newer entry in place.
pub proof fn lemma_stale_disconnect_keeps_newer<C>(m: Map<Seq<char>, Connection<C>>, subject: Seq<char>, stale: Connection<C>, newer: Connection<C>)
    requires
        stale.id != newer.id,
    ensures
        after_disconnect(m.insert(subject, stale).insert(subject, newer), subject, stale.id) == m.insert(subject, stale).insert(subject, newer),
        after_disconnect(m.insert(subject, stale).insert(subject, newer), subject, stale.id)[subject] == newer,
{
}

/// Operations on other subjects leave a subject's entry, or its absence, as it was.
pub proof fn lemma_others_leave_entry<C>(m: Map<Seq<char>, Connection<C>>, ops: Seq<RegistryOp<C>>, subject: Seq<char>)
    requires
        forall|i: int| 0 <= i < ops.len() ==> op_subject(#[trigger] ops[i]) != subject,
    ensures
        apply_ops(m, ops).contains_key(subject) == m.contains_key(subject),
        m.contains_key(subject) ==> apply_ops(m, ops)[subject] == m[subject],
    decreases ops.len(),
{
    if ops.len() > 0 {
        let init = ops.drop_last();
        assert forall|i: int| 0 <= i < init.len() implies op_subject(#[trigger] init[i]) != subject by {
            assert(init[i] == ops[i]);
        }
        lemma_others_leave_entry(m, init, subject);
        assert(op_subject(ops[ops.len() - 1]) != subject);
    }
}

/// A connect followed by a disconnect from the same connection leaves the
/// subject without an entry, whatever other subjects did in between.
pub proof fn lemma_connect_then_own_disconnect<C>(m: Map<Seq<char>, Connection<C>>, subject: Seq<char>, c: Connection<C>, between: Seq<RegistryOp<C>>)
    requires
        forall|i: int| 0 <= i < between.len() ==> op_subject(#[trigger] between[i]) != subject,
    ensures
        !after_disconnect(apply_ops(m.insert(subject, c), between), subject, c.id).contains_key(subject),
{
    lemma_others_leave_entry(m.insert(subject, c), between, subject);
}

/// Connects of distinct subjects, in any order, leave exactly those subjects
/// in an empty registry: one entry each, none lost, none doubled.
pub proof fn lemma_distinct_connects<C>(ops: Seq<RegistryOp<C>>)
    requires
        forall|i: int| 0 <= i < ops.len() ==> (#[trigger] ops[i]) is Connect,
        forall|i: int, j: int| 0 <= i < j < ops.len() ==> op_subject(#[trigger] ops[i]) != op_subject(#[trigger] ops[j]),
    ensures
        apply_ops(Map::<Seq<char>, Connection<C>>::empty(), ops).dom() == ops.map_values(|op: RegistryOp<C>| op_subject(op)).to_set(),
        apply_ops(Map::<Seq<char>, Connection<C>>::empty(), ops).dom().finite(),
        apply_ops(Map::<Seq<char>, Connection<C>>::empty(), ops).dom().len() == ops.len(),
    decreases ops.len(),
{
    let subjects = ops.map_values(|op: RegistryOp<C>| op_subject(op));
    if ops.len() == 0 {
        assert(subjects.to_set() =~= Set::<Seq<char>>::empty());
        assert(apply_ops(Map::<Seq<char>, Connection<C>>::empty(), ops).dom() =~= Set::<Seq<char>>::empty());
    } else {
        let init = ops.drop_last();
        let last = ops.last();
        assert forall|i: int| 0 <= i < init.len() implies (#[trigger] init[i]) is Connect by {
            assert(init[i] == ops[i]);
        }
        assert forall|i: int, j: int| 0 <= i < j < init.len() implies op_subject(#[trigger] init[i]) != op_subject(#[trigger] init[j]) by {
            assert(init[i] == ops[i]);
            assert(init[j] == ops[j]);
        }
        lemma_distinct_connects(init);
        let before = apply_ops(Map::<Seq<char>, Connection<C>>::empty(), init);
        let init_subjects = init.map_values(|op: RegistryOp<C>| op_subject(op));
        assert(ops[ops.len() - 1] is Connect);
        let s = op_subject(last);
        assert(!before.dom().contains(s)) by {
            if before.dom().contains(s) {
                assert(init_subjects.to_set().contains(s));
                let i = choose|i: int| 0 <= i < init_subjects.len() && init_subjects[i] == s;
                assert(init[i] == ops[i]);
                assert(op_subject(ops[i]) != op_subject(ops[ops.len() - 1]));
            }
        }
        assert(subjects =~= init_subjects.push(s));
        assert forall|x: Seq<char>| subjects.to_set().contains(x) <==> init_subjects.to_set().insert(s).contains(x) by {
            if subjects.contains(x) {
                let i = choose|i: int| 0 <= i < subjects.len() && subjects[i] == x;
                if i < init_subjects.len() {
                    assert(init_subjects[i] == x);
                }
            }
            if init_subjects.contains(x) {
                let i = choose|i: int| 0 <= i < init_subjects.len() && init_subjects[i] == x;
                assert(subjects[i] == x);
            }
            if x == s {
                assert(subjects[subjects.len() - 1] == s);
            }
        }
        assert(subjects.to_set() =~= init_subjects.to_set().insert(s));
        assert(apply_ops(Map::<Seq<char>, Connection<C>>::empty(), ops).dom() =~= before.dom().insert(s));
    }
}

/// Whether two entry maps hold the same thing for `subject`.
pub open spec fn same_at<C>(a: Map<Seq<char>, Connection<C>>, b: Map<Seq<char>, Connection<C>>, subject: Seq<char>) -> bool {
    &&& a.contains_key(subject) == b.contains_key(subject)
    &&& a.contains_key(subject) ==> a[subject] == b[subject]
}

/// The operations of a run that are about `subject`, in order.
pub open spec fn own_ops<C>(ops: Seq<RegistryOp<C>>, subject: Seq<char>) -> Seq<RegistryOp<C>> {
    ops.filter(|op: RegistryOp<C>| op_subject(op) == subject)
}

/// However the operations of many subjects interleave, each subject ends with
/// the entry that its own operations alone would give it: no update is lost
/// to, or made by, another subject's operations.
pub proof fn lemma_entry_follows_own_ops<C>(m: Map<Seq<char>, Connection<C>>, ops: Seq<RegistryOp<C>>, subject: Seq<char>)
    ensures
        same_at(apply_ops(m, ops), apply_ops(m, own_ops(ops, subject)), subject),
    decreases ops.len(),
{
    reveal(Seq::filter);
    if ops.len() > 0 {
        let init = ops.drop_last();
        let last = ops.last();
        lemma_entry_follows_own_ops(m, init, subject);
        if op_subject(last) == subject {
            assert(own_ops(ops, subject) == own_ops(init, subject).push(last));
            assert(own_ops(ops, subject).drop_last() == own_ops(init, subject));
        } else {
            assert(own_ops(ops, subject) == own_ops(init, subject));
        }
    }
}

} // verus!
