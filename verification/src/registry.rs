//! The sessions that are connected: who they are, what they are called, who
//! gets a broadcast and who is dropped after one.
//!
//! The registry is a map from the id of a connection to the name of its
//! session, and it is walked in no particular order. A username is checked and
//! entered in one step, so that two connections that ask for the same name at
//! the same time cannot both get it. Callers that share a registry between
//! threads hold their lock around each call.

use crate::protocol::{is_reserved, is_reserved_name, name_taken, verdict, Rejection};
use crate::text::{
    chars_eq_ignore_case, chars_of, eq_ignore_case, lemma_eq_ignore_case_equivalence,
    lemma_trimmed_idempotent, string_of, trim_bounds, trimmed,
};
use std::collections::HashMap;
use vstd::prelude::*;
use vstd::std_specs::hash::*;
use vstd::std_specs::iter::IteratorSpec;
use vstd::string::*;

verus! {

broadcast use group_hash_axioms;

/// The names under which the sessions of `m` go.
pub open spec fn names_of(m: Map<u64, Seq<char>>) -> Set<Seq<char>> {
    m.values()
}

/// Whether a name can stand in a registry at all: trimmed, not empty, not reserved.
pub open spec fn valid_name(name: Seq<char>) -> bool {
    &&& trimmed(name) == name
    &&& name.len() > 0
    &&& !is_reserved(name)
}

/// The registry is finite, no two sessions share a name up to the case of
/// ASCII letters, and every name is valid. That no two share an id is in the
/// nature of a map.
pub open spec fn well_formed(m: Map<u64, Seq<char>>) -> bool {
    &&& m.dom().finite()
    &&& forall|a: u64, b: u64|
        #![trigger m[a], m[b]]
        m.contains_key(a) && m.contains_key(b) && a != b ==> !eq_ignore_case(m[a], m[b])
    &&& forall|a: u64| m.contains_key(a) ==> valid_name(#[trigger] m[a])
}

/// The ids that a broadcast leaves out: the sender, unless it is included.
pub open spec fn left_out(sender: u64, include_sender: bool) -> Set<u64> {
    if include_sender {
        Set::empty()
    } else {
        set![sender]
    }
}

/// The ids that a broadcast is written to.
pub open spec fn recipients_of(m: Map<u64, Seq<char>>, sender: u64, include_sender: bool) -> Set<
    u64,
> {
    m.dom().difference(left_out(sender, include_sender))
}

/// One change of a registry.
pub enum Change {
    /// A session asks for a name; it is entered where the name passes the check.
    Register { id: u64, candidate: Seq<char> },
    /// A session ends.
    Remove { id: u64 },
    /// A broadcast could not be written to these sessions.
    Prune { failed: Seq<u64> },
}

/// The registry `m` after the change `c`.
pub open spec fn changed(m: Map<u64, Seq<char>>, c: Change) -> Map<u64, Seq<char>> {
    match c {
        Change::Register { id, candidate } => match verdict(candidate, names_of(m)) {
            Ok(name) => m.insert(id, name),
            Err(_) => m,
        },
        Change::Remove { id } => m.remove(id),
        Change::Prune { failed } => m.remove_keys(failed.to_set()),
    }
}

/// The registry after all of `changes`, one after the other, from an empty one.
pub open spec fn after_all(changes: Seq<Change>) -> Map<u64, Seq<char>>
    decreases changes.len(),
{
    if changes.len() == 0 {
        Map::empty()
    } else {
        changed(after_all(changes.drop_last()), changes.last())
    }
}

/// Taking sessions out leaves a well-formed registry well formed.
pub proof fn lemma_removing_keeps_well_formed(m: Map<u64, Seq<char>>, gone: Set<u64>)
    requires
        well_formed(m),
    ensures
        well_formed(m.remove_keys(gone)),
{
    let r = m.remove_keys(gone);
    assert(r.dom() =~= m.dom().difference(gone));
}

/// A name that passes the check keeps the registry well formed when its
/// session is entered, also in place of an earlier session with the same id.
pub proof fn lemma_registering_keeps_well_formed(
    m: Map<u64, Seq<char>>,
    id: u64,
    candidate: Seq<char>,
)
    requires
        well_formed(m),
        verdict(candidate, names_of(m)) is Ok,
    ensures
        well_formed(m.insert(id, verdict(candidate, names_of(m))->Ok_0)),
{
    let name = verdict(candidate, names_of(m))->Ok_0;
    let r = m.insert(id, name);
    lemma_trimmed_idempotent(candidate);
    assert(r.dom() =~= m.dom().insert(id));
    assert forall|a: u64| m.contains_key(a) implies !eq_ignore_case(#[trigger] m[a], name)
        && !eq_ignore_case(name, m[a]) by {
        assert(m.contains_value(m[a]));
        assert(names_of(m).contains(m[a]));
        lemma_eq_ignore_case_equivalence(name, m[a], name);
    }
    assert forall|a: u64, b: u64|
        #![trigger r[a], r[b]]
        r.contains_key(a) && r.contains_key(b) && a != b implies !eq_ignore_case(r[a], r[b]) by {
        if a == id {
            assert(r[b] == m[b]);
        } else if b == id {
            assert(r[a] == m[a]);
        } else {
            assert(r[a] == m[a] && r[b] == m[b]);
        }
    }
    assert forall|a: u64| r.contains_key(a) implies valid_name(#[trigger] r[a]) by {
        if a != id {
            assert(r[a] == m[a]);
        }
    }
}

/// In a well-formed registry no two sessions have names that are equal up to
/// the case of ASCII letters.
pub proof fn lemma_no_shared_names(m: Map<u64, Seq<char>>, a: u64, b: u64)
    requires
        well_formed(m),
        m.contains_key(a),
        m.contains_key(b),
        a != b,
    ensures
        !eq_ignore_case(m[a], m[b]),
{
}

/// Whatever sessions come, ask for names, leave or are dropped, and in whatever
/// order: the registry never holds two sessions under names that are equal up
/// to the case of ASCII letters.
pub proof fn lemma_every_history_is_well_formed(changes: Seq<Change>)
    ensures
        well_formed(after_all(changes)),
    decreases changes.len(),
{
    if changes.len() > 0 {
        let m = after_all(changes.drop_last());
        lemma_every_history_is_well_formed(changes.drop_last());
        match changes.last() {
            Change::Register { id, candidate } => {
                if verdict(candidate, names_of(m)) is Ok {
                    lemma_registering_keeps_well_formed(m, id, candidate);
                }
            },
            Change::Remove { id } => {
                assert(m.remove(id).dom() =~= m.dom().remove(id));
            },
            Change::Prune { failed } => {
                lemma_removing_keeps_well_formed(m, failed.to_set());
            },
        }
    } else {
        assert(after_all(changes).dom() =~= Set::<u64>::empty());
    }
}

/// A broadcast that leaves the sender out goes to all sessions but one where
/// the sender is registered; every other broadcast goes to all of them.
pub proof fn lemma_recipient_count(m: Map<u64, Seq<char>>, sender: u64, include_sender: bool)
    requires
        well_formed(m),
    ensures
        recipients_of(m, sender, include_sender).finite(),
        recipients_of(m, sender, include_sender).len() == if !include_sender && m.contains_key(
            sender,
        ) {
            m.dom().len() - 1
        } else {
            m.dom().len() as int
        },
        forall|id: u64|
            recipients_of(m, sender, include_sender).contains(id) <==> m.contains_key(id) && (
            include_sender || id != sender),
{
    if include_sender {
        assert(recipients_of(m, sender, include_sender) =~= m.dom());
    } else {
        assert(recipients_of(m, sender, include_sender) =~= m.dom().remove(sender));
    }
}

/// After the sessions with a failed write are dropped, none of them is left,
/// and every other session is there as it was.
pub proof fn lemma_failed_sessions_are_dropped(m: Map<u64, Seq<char>>, failed: Seq<u64>)
    requires
        well_formed(m),
    ensures
        well_formed(m.remove_keys(failed.to_set())),
        forall|id: u64| failed.contains(id) ==> !m.remove_keys(failed.to_set()).contains_key(id),
        forall|id: u64|
            m.contains_key(id) && !failed.contains(id) ==> m.remove_keys(
                failed.to_set(),
            ).contains_key(id) && m.remove_keys(failed.to_set())[id] == m[id],
        forall|id: u64| m.remove_keys(failed.to_set()).contains_key(id) ==> m.contains_key(id),
{
    lemma_removing_keeps_well_formed(m, failed.to_set());
}

/// The names of the sessions, by id.
spec fn names_by_id(sessions: Map<u64, String>) -> Map<u64, Seq<char>> {
    Map::new(|id: u64| sessions.contains_key(id), |id: u64| sessions[id]@)
}

/// The keys of `s` that are not in `gone`, in the order of `s`.
spec fn kept(s: Seq<u64>, gone: Set<u64>) -> Seq<u64>
    decreases s.len(),
{
    if s.len() == 0 {
        s
    } else if gone.contains(s.last()) {
        kept(s.drop_last(), gone)
    } else {
        kept(s.drop_last(), gone).push(s.last())
    }
}

/// `kept` holds each key of `s` outside of `gone`, and no key twice where `s` holds none twice.
proof fn lemma_kept(s: Seq<u64>, gone: Set<u64>)
    requires
        s.no_duplicates(),
    ensures
        kept(s, gone).no_duplicates(),
        forall|k: u64| #[trigger] kept(s, gone).contains(k) ==> s.contains(k) && !gone.contains(k),
        forall|i: int|
            0 <= i < s.len() && !gone.contains(#[trigger] s[i]) ==> kept(s, gone).contains(s[i]),
    decreases s.len(),
{
    let r = kept(s, gone);
    if s.len() > 0 {
        let d = s.drop_last();
        let n = s.len() - 1;
        assert(s[n] == s.last());
        assert(d.no_duplicates()) by {
            assert forall|i: int, j: int| 0 <= i < d.len() && 0 <= j < d.len() && i != j implies d[i]
                != d[j] by {
                assert(d[i] == s[i] && d[j] == s[j]);
            }
        }
        lemma_kept(d, gone);
        let rest = kept(d, gone);
        assert forall|k: u64| #[trigger] r.contains(k) implies s.contains(k) && !gone.contains(k) by {
            let i = choose|i: int| 0 <= i < r.len() && r[i] == k;
            if i < rest.len() {
                assert(rest[i] == k);
                assert(rest.contains(k));
                assert(d.contains(k));
                let j = choose|j: int| 0 <= j < d.len() && d[j] == k;
                assert(s[j] == k);
            } else {
                assert(s[n] == k);
            }
        }
        assert forall|i: int| 0 <= i < s.len() && !gone.contains(#[trigger] s[i]) implies r.contains(
            s[i],
        ) by {
            if i < n {
                assert(d[i] == s[i]);
                assert(rest.contains(d[i]));
                let a = choose|a: int| 0 <= a < rest.len() && rest[a] == d[i];
                assert(r[a] == s[i]);
            } else {
                assert(r[r.len() - 1] == s[i]);
            }
        }
        if !gone.contains(s.last()) {
            assert forall|a: int| 0 <= a < rest.len() implies rest[a] != s.last() by {
                assert(rest.contains(rest[a]));
                assert(d.contains(rest[a]));
                let j = choose|j: int| 0 <= j < d.len() && d[j] == rest[a];
                assert(s[j] == rest[a]);
            }
            assert forall|i: int, j: int| 0 <= i < r.len() && 0 <= j < r.len() && i != j implies r[i]
                != r[j] by {
                if i < rest.len() && j < rest.len() {
                    assert(r[i] == rest[i] && r[j] == rest[j]);
                } else if i < rest.len() {
                    assert(r[i] == rest[i]);
                } else {
                    assert(r[j] == rest[j]);
                }
            }
        }
    }
}

/// The registry of connected sessions.
pub struct Registry {
    sessions: HashMap<u64, String>,
}

impl View for Registry {
    type V = Map<u64, Seq<char>>;

    /// The name of each session, by the id of its connection.
    closed spec fn view(&self) -> Map<u64, Seq<char>> {
        names_by_id(self.sessions@)
    }
}

impl Registry {
    /// The invariant of the registry: see `well_formed`.
    pub open spec fn wf(&self) -> bool {
        well_formed(self@)
    }

    /// A registry without sessions.
    pub fn new() -> (r: Self)
        ensures
            r.wf(),
            r@ == Map::<u64, Seq<char>>::empty(),
    {
        let r = Registry { sessions: HashMap::new() };
        assert(r@ =~= Map::<u64, Seq<char>>::empty());
        assert(r@.dom() =~= Set::<u64>::empty());
        r
    }

    /// The number of sessions.
    pub fn len(&self) -> (n: usize)
        ensures
            n == self@.dom().len(),
    {
        assert(self@.dom() =~= self.sessions@.dom());
        self.sessions.len()
    }

    /// Whether a session has the id `id`.
    pub fn contains(&self, id: u64) -> (b: bool)
        ensures
            b == self@.contains_key(id),
    {
        self.sessions.contains_key(&id)
    }

    /// The name of the session with the id `id`.
    pub fn username_of(&self, id: u64) -> (r: Option<String>)
        ensures
            match r {
                Some(name) => self@.contains_key(id) && self@[id] == name@,
                None => !self@.contains_key(id),
            },
    {
        match self.sessions.get(&id) {
            Some(name) => Some(name.clone()),
            None => None,
        }
    }

    /// Whether a session is called `name`, up to the case of ASCII letters.
    pub fn is_taken(&self, name: &Vec<char>) -> (b: bool)
        ensures
            b == name_taken(names_of(self@), name@),
    {
        let ghost pairs = spec_hash_map_iter(&self.sessions).remaining();
        for (id, other) in it: self.sessions.iter()
            invariant
                it.seq() == pairs,
                pairs == spec_hash_map_iter(&self.sessions).remaining(),
                forall|j: int| 0 <= j < it.index() ==> !eq_ignore_case((*pairs[j].1)@, name@),
        {
            let other_chars = chars_of(other.as_str());
            if chars_eq_ignore_case(&other_chars, name) {
                proof {
                    assert(self.sessions@.contains_key(*id) && self.sessions@[*id] == *other);
                    assert(self@.contains_key(*id) && self@[*id] == other@);
                    assert(self@.contains_value(other@));
                    assert(names_of(self@).contains(other@));
                }
                return true;
            }
        }
        proof {
            if name_taken(names_of(self@), name@) {
                let n = choose|n: Seq<char>| #[trigger]
                    names_of(self@).contains(n) && eq_ignore_case(n, name@);
                assert(self@.contains_value(n));
                let k = choose|k: u64| #[trigger] self@.dom().contains(k) && self@[k] == n;
                assert(self.sessions@.contains_key(k));
                assert(pairs.contains((&k, &self.sessions@[k])));
                let j = choose|j: int| 0 <= j < pairs.len() && pairs[j] == (&k, &self.sessions@[k]);
                assert((*pairs[j].1)@ == n);
            }
        }
        false
    }

    /// Checks a candidate username against the rules and the sessions that are
    /// connected, and gives the trimmed name or the reason against it. The
    /// registry stays as it is.
    pub fn validate(&self, candidate: &str) -> (r: Result<String, Rejection>)
        ensures
            match r {
                Ok(name) => verdict(candidate@, names_of(self@)) == Ok::<Seq<char>, Rejection>(
                    name@,
                ),
                Err(e) => verdict(candidate@, names_of(self@)) == Err::<Seq<char>, Rejection>(e),
            },
    {
        let v = chars_of(candidate);
        let (a, b) = trim_bounds(&v);
        if a == b {
            return Err(Rejection::Empty);
        }
        let name = string_of(&v, a, b);
        let name_chars = chars_of(name.as_str());
        if is_reserved_name(&name_chars) {
            return Err(Rejection::Reserved);
        }
        if self.is_taken(&name_chars) {
            return Err(Rejection::Taken);
        }
        Ok(name)
    }

    /// Takes the session with the id `id` out, if there is one, and gives its name.
    pub fn remove(&mut self, id: u64) -> (r: Option<String>)
        requires
            old(self).wf(),
        ensures
            final(self).wf(),
            final(self)@ == changed(old(self)@, (Change::Remove { id })),
            !final(self)@.contains_key(id),
            match r {
                Some(name) => old(self)@.contains_key(id) && old(self)@[id] == name@,
                None => !old(self)@.contains_key(id) && final(self)@ == old(self)@,
            },
    {
        let r = self.sessions.remove(&id);
        proof {
            assert(self@ =~= old(self)@.remove(id));
            assert(self@.dom() =~= old(self)@.dom().remove(id));
        }
        r
    }

    /// Enters a session under a checked name. The candidate is checked as
    /// `validate` does, against all sessions that are registered at that
    /// moment; where it passes, the session is entered under the trimmed name,
    /// in place of an earlier session with the same id.
    pub fn register(&mut self, id: u64, candidate: &str) -> (r: Result<String, Rejection>)
        requires
            old(self).wf(),
        ensures
            final(self).wf(),
            final(self)@ == changed(old(self)@, (Change::Register { id, candidate: candidate@ })),
            match r {
                Ok(name) => {
                    &&& verdict(candidate@, names_of(old(self)@)) == Ok::<Seq<char>, Rejection>(
                        name@,
                    )
                    &&& final(self)@ == old(self)@.insert(id, name@)
                },
                Err(e) => {
                    &&& verdict(candidate@, names_of(old(self)@)) == Err::<Seq<char>, Rejection>(
                        e,
                    )
                    &&& final(self)@ == old(self)@
                },
            },
    {
        match self.validate(candidate) {
            Err(e) => Err(e),
            Ok(name) => {
                let entered = name.clone();
                let _ = self.sessions.insert(id, name);
                proof {
                    assert(self@ =~= old(self)@.insert(id, entered@));
                    lemma_registering_keeps_well_formed(old(self)@, id, candidate@);
                }
                Ok(entered)
            },
        }
    }

    /// The ids to which a broadcast from `sender` is written: every session,
    /// but for the sender where it is not included. Each id comes once; the
    /// order is that in which the map is walked, and means nothing.
    pub fn recipients(&self, sender: u64, include_sender: bool) -> (r: Vec<u64>)
        requires
            self.wf(),
        ensures
            r@.to_set() == recipients_of(self@, sender, include_sender),
            r@.no_duplicates(),
            r@.len() == if !include_sender && self@.contains_key(sender) {
                self@.dom().len() - 1
            } else {
                self@.dom().len() as int
            },
            forall|id: u64|
                r@.contains(id) <==> self@.contains_key(id) && (include_sender || id != sender),
    {
        let ghost gone = left_out(sender, include_sender);
        let ghost keys = spec_keys_iter(&self.sessions).remaining().unref();
        let mut r: Vec<u64> = Vec::new();
        for id in it: self.sessions.keys()
            invariant
                it.seq().unref() == keys,
                gone == left_out(sender, include_sender),
                r@ == kept(keys.take(it.index()), gone),
        {
            proof {
                let t = keys.take(it.index() + 1);
                assert(t.drop_last() =~= keys.take(it.index()));
                assert(t.last() == *id);
            }
            if include_sender || *id != sender {
                r.push(*id);
            }
        }
        proof {
            assert(keys.take(keys.len() as int) =~= keys);
            assert(keys.no_duplicates()) by {
                let refs = spec_keys_iter(&self.sessions).remaining();
                assert forall|i: int, j: int|
                    0 <= i < keys.len() && 0 <= j < keys.len() && i != j implies keys[i]
                    != keys[j] by {
                    assert(refs[i] != refs[j]);
                }
            }
            lemma_kept(keys, gone);
            assert(keys.to_set() =~= self.sessions@.dom());
            assert(self@.dom() =~= self.sessions@.dom());
            lemma_recipient_count(self@, sender, include_sender);
            assert forall|id: u64| r@.contains(id) <==> self@.contains_key(id) && (include_sender
                || id != sender) by {
                if self@.contains_key(id) && (include_sender || id != sender) {
                    assert(keys.to_set().contains(id));
                    let i = choose|i: int| 0 <= i < keys.len() && keys[i] == id;
                    assert(!gone.contains(keys[i]));
                }
                if r@.contains(id) {
                    assert(keys.to_set().contains(id));
                }
            }
            assert(r@.to_set() =~= recipients_of(self@, sender, include_sender));
            r@.unique_seq_to_set();
        }
        r
    }

    /// Drops the sessions to which a write failed. Every session whose id is in
    /// `failed` is gone afterwards; every other session stays as it is.
    pub fn prune(&mut self, failed: &Vec<u64>)
        requires
            old(self).wf(),
        ensures
            final(self).wf(),
            final(self)@ == changed(old(self)@, (Change::Prune { failed: failed@ })),
            forall|id: u64| failed@.contains(id) ==> !final(self)@.contains_key(id),
            forall|id: u64|
                old(self)@.contains_key(id) && !failed@.contains(id) ==> final(self)@.contains_key(
                    id,
                ) && final(self)@[id] == old(self)@[id],
    {
        let mut i: usize = 0;
        while i < failed.len()
            invariant
                i <= failed.len(),
                self@ == old(self)@.remove_keys(failed@.take(i as int).to_set()),
            decreases failed.len() - i,
        {
            let ghost before = self@;
            let _ = self.sessions.remove(&failed[i]);
            proof {
                assert(self@ =~= before.remove(failed@[i as int]));
                let t0 = failed@.take(i as int);
                let t1 = failed@.take(i + 1);
                let s0 = t0.to_set();
                let s1 = t1.to_set();
                let gone_now = failed@[i as int];
                assert forall|k: u64| s1.contains(k) <==> s0.contains(k) || k == gone_now by {
                    if t1.contains(k) {
                        let j = choose|j: int| 0 <= j < t1.len() && t1[j] == k;
                        if j < i {
                            assert(t0[j] == k);
                        }
                    }
                    if t0.contains(k) {
                        let j = choose|j: int| 0 <= j < t0.len() && t0[j] == k;
                        assert(t1[j] == k);
                    }
                    if k == gone_now {
                        assert(t1[i as int] == k);
                    }
                }
                assert(self@ =~= old(self)@.remove_keys(s1));
            }
            i += 1;
        }
        proof {
            assert(failed@.take(i as int) =~= failed@);
            lemma_failed_sessions_are_dropped(old(self)@, failed@);
        }
    }
}

} // verus!
