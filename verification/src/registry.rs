//! The session registry: the single source of truth for which PTY
//! sessions are alive, and the registry half of every controller
//! operation (spawn, write, resize, kill, kill-all).
//!
//! The registry maps a session identifier to a [`PtyInstance`]: the
//! producer end of the session's write queue plus whatever per-session
//! resources the host application keeps (master handle, child process
//! handle, pump join handles), carried opaquely as the type parameter
//! `R`.  Identifiers are issued once and never reused: the registry
//! remembers every identifier it ever issued and every identifier that
//! was ever registered, and refuses a repeat of either.

use vstd::prelude::*;

verus! {

use vstd::string::StringExecFns;
use crate::messages::{not_found_msg, not_found_msg_spec, write_failed_msg};
use crate::shell::{geometry, PtyGeometry};
use crate::text::str_eq;

/// One live session's bundle, as far as the registry holds it: the
/// producer end of the write queue, and the host application's own
/// per-session resources, opaque to the registry.
pub struct PtyInstance<R> {
    /// The producer end of the session's unbounded write queue.
    pub write_tx: std::sync::mpsc::Sender<Vec<u8>>,
    /// The host's per-session resources (master handle, child handle,
    /// pump join handles); the registry never looks inside.
    pub extra: R,
}

#[verifier::external_type_specification]
#[verifier::external_body]
#[verifier::reject_recursive_types(T)]
pub struct ExSender<T>(std::sync::mpsc::Sender<T>);

/// Relies on `std::sync::mpsc::Sender::send`: hands the buffer to the
/// queue, in submission order relative to other sends on the same
/// queue, and fails exactly when the receiving end has been dropped;
/// the error is rendered as its description.
#[verifier::external_body]
fn send_bytes(tx: &std::sync::mpsc::Sender<Vec<u8>>, data: Vec<u8>) -> (r: Result<(), String>) {
    match tx.send(data) {
        Ok(()) => Ok(()),
        Err(e) => Err(e.to_string()),
    }
}

/// Relies on `uuid::Uuid::new_v4` and the hyphenated `Display` form:
/// a freshly drawn random version-4 UUID rendered as its 36-character
/// string.  Randomness gives no freshness guarantee, so nothing more
/// than the length is assumed; the registry itself checks freshness.
#[verifier::external_body]
fn fresh_uuid_string() -> (r: String)
    ensures
        r@.len() == 36,
{
    uuid::Uuid::new_v4().to_string()
}

/// The set of views of the strings in `s`.
pub open spec fn ids_set(s: Seq<String>) -> Set<Seq<char>> {
    Set::new(|k: Seq<char>| exists|i: int| 0 <= i < s.len() && s[i]@ == k)
}

/// Some entry of `s` carries the identifier `k`.
pub open spec fn has_id<R>(s: Seq<(String, PtyInstance<R>)>, k: Seq<char>) -> bool {
    exists|i: int| 0 <= i < s.len() && s[i].0@ == k
}

/// The instance of the entry of `s` that carries `k` (meaningful only
/// when the identifiers of `s` are distinct and `k` occurs).
pub open spec fn value_at<R>(s: Seq<(String, PtyInstance<R>)>, k: Seq<char>) -> PtyInstance<R> {
    s[choose|i: int| 0 <= i < s.len() && s[i].0@ == k].1
}

/// The entries of `s` carry pairwise distinct identifiers.
pub open spec fn distinct_ids<R>(s: Seq<(String, PtyInstance<R>)>) -> bool {
    forall|i: int, j: int|
        0 <= i < j < s.len() ==> (#[trigger] s[i]).0@ != (#[trigger] s[j]).0@
}

/// The mapping from identifier to instance that `s` represents.
pub open spec fn table_of<R>(s: Seq<(String, PtyInstance<R>)>) -> Map<
    Seq<char>,
    PtyInstance<R>,
> {
    Map::new(|k: Seq<char>| has_id(s, k), |k: Seq<char>| value_at(s, k))
}

/// With distinct identifiers, the entry at a matching index is the one
/// the table maps its identifier to.
proof fn lemma_value_at_is<R>(s: Seq<(String, PtyInstance<R>)>, k: Seq<char>, i: int)
    requires
        distinct_ids(s),
        0 <= i < s.len(),
        s[i].0@ == k,
    ensures
        value_at(s, k) == s[i].1,
{
    assert(has_id(s, k));
    let c = choose|j: int| 0 <= j < s.len() && s[j].0@ == k;
    if c != i {
        assert(s[c].0@ != s[i].0@);
    }
}

/// Appending an entry with a fresh identifier inserts it into the table
/// and keeps the identifiers distinct.
proof fn lemma_table_push<R>(s: Seq<(String, PtyInstance<R>)>, id: String, inst: PtyInstance<R>)
    requires
        distinct_ids(s),
        !has_id(s, id@),
    ensures
        distinct_ids(s.push((id, inst))),
        table_of(s.push((id, inst))) == table_of(s).insert(id@, inst),
{
    let t = s.push((id, inst));
    assert forall|i: int, j: int| 0 <= i < j < t.len() implies (#[trigger] t[i]).0@ != (
    #[trigger] t[j]).0@ by {
        if j < s.len() {
            assert(t[i] == s[i] && t[j] == s[j]);
        } else {
            assert(t[j] == (id, inst));
            assert(t[i] == s[i]);
            assert(!(s[i].0@ == id@)) by {
                if s[i].0@ == id@ {
                    assert(has_id(s, id@));
                }
            }
        }
    }
    assert forall|k: Seq<char>| #[trigger] has_id(t, k) implies has_id(s, k) || k == id@ by {
        let w = choose|i: int| 0 <= i < t.len() && t[i].0@ == k;
        if w < s.len() {
            assert(s[w].0@ == k);
        } else {
            assert(t[w] == (id, inst));
        }
    }
    assert forall|k: Seq<char>| has_id(s, k) implies #[trigger] has_id(t, k) by {
        let w = choose|i: int| 0 <= i < s.len() && s[i].0@ == k;
        assert(t[w].0@ == k);
    }
    assert(t[s.len() as int] == (id, inst));
    assert(has_id(t, id@));
    assert forall|k: Seq<char>| #[trigger] has_id(t, k) implies value_at(t, k) == table_of(
        s,
    ).insert(id@, inst)[k] by {
        if k == id@ {
            lemma_value_at_is(t, k, s.len() as int);
        } else {
            let w = choose|i: int| 0 <= i < s.len() && s[i].0@ == k;
            assert(t[w].0@ == k);
            lemma_value_at_is(t, k, w);
            lemma_value_at_is(s, k, w);
        }
    }
    assert(table_of(t) =~= table_of(s).insert(id@, inst));
}

/// Removing the entry at an index removes exactly its identifier from
/// the table and keeps the identifiers distinct.
proof fn lemma_table_remove<R>(s: Seq<(String, PtyInstance<R>)>, i: int)
    requires
        distinct_ids(s),
        0 <= i < s.len(),
    ensures
        distinct_ids(s.remove(i)),
        table_of(s.remove(i)) == table_of(s).remove(s[i].0@),
{
    let t = s.remove(i);
    s.remove_ensures(i);
    assert forall|a: int, b: int| 0 <= a < b < t.len() implies (#[trigger] t[a]).0@ != (
    #[trigger] t[b]).0@ by {
        let a0 = if a < i { a } else { a + 1 };
        let b0 = if b < i { b } else { b + 1 };
        assert(t[a] == s[a0] && t[b] == s[b0]);
    }
    assert forall|k: Seq<char>| #[trigger] has_id(t, k) implies has_id(s, k) && k != s[i].0@ by {
        let w = choose|j: int| 0 <= j < t.len() && t[j].0@ == k;
        let w0 = if w < i { w } else { w + 1 };
        assert(t[w] == s[w0]);
        assert(s[w0].0@ == k);
        if w0 != i {
            if w0 < i {
                assert(s[w0].0@ != s[i].0@);
            } else {
                assert(s[i].0@ != s[w0].0@);
            }
        }
    }
    assert forall|k: Seq<char>| has_id(s, k) && k != s[i].0@ implies #[trigger] has_id(t, k) by {
        let w = choose|j: int| 0 <= j < s.len() && s[j].0@ == k;
        if w < i {
            assert(t[w] == s[w]);
            assert(t[w].0@ == k);
        } else {
            assert(w > i);
            assert(t[w - 1] == s[w]);
            assert(t[w - 1].0@ == k);
        }
    }
    assert forall|k: Seq<char>| #[trigger] has_id(t, k) implies value_at(t, k) == value_at(s, k) by {
        let w = choose|j: int| 0 <= j < t.len() && t[j].0@ == k;
        let w0 = if w < i { w } else { w + 1 };
        assert(t[w] == s[w0]);
        lemma_value_at_is(t, k, w);
        lemma_value_at_is(s, k, w0);
    }
    assert(table_of(t) =~= table_of(s).remove(s[i].0@));
}

/// The session registry together with the record of every identifier
/// it ever issued or registered.
pub struct PtyState<R> {
    entries: Vec<(String, PtyInstance<R>)>,
    issued_ids: Vec<String>,
    registered_ids: Vec<String>,
}

impl<R> PtyState<R> {
    /// The live sessions: identifier to instance.
    pub closed spec fn table(self) -> Map<Seq<char>, PtyInstance<R>> {
        table_of(self.entries@)
    }

    /// Every identifier ever issued.
    pub closed spec fn issued(self) -> Set<Seq<char>> {
        ids_set(self.issued_ids@)
    }

    /// Every identifier ever registered.
    pub closed spec fn registered(self) -> Set<Seq<char>> {
        ids_set(self.registered_ids@)
    }

    /// Well-formedness: live entries carry distinct identifiers, and
    /// every live identifier was registered.
    pub closed spec fn wf(self) -> bool {
        &&& distinct_ids(self.entries@)
        &&& forall|i: int|
            0 <= i < self.entries@.len() ==> self.registered().contains(
                (#[trigger] self.entries@[i]).0@,
            )
    }

    /// An empty registry with no identifier issued.
    pub fn new() -> (s: Self)
        ensures
            s.wf(),
            s.table() == Map::<Seq<char>, PtyInstance<R>>::empty(),
            s.issued() == Set::<Seq<char>>::empty(),
            s.registered() == Set::<Seq<char>>::empty(),
    {
        let s = PtyState {
            entries: Vec::new(),
            issued_ids: Vec::new(),
            registered_ids: Vec::new(),
        };
        proof {
            assert(s.table() =~= Map::<Seq<char>, PtyInstance<R>>::empty());
            assert(s.issued() =~= Set::<Seq<char>>::empty());
            assert(s.registered() =~= Set::<Seq<char>>::empty());
        }
        s
    }

    /// Whether `id` occurs in `v` (by characters).
    fn vec_contains_id(v: &Vec<String>, id: &str) -> (r: bool)
        ensures
            r == ids_set(v@).contains(id@),
    {
        let mut i: usize = 0;
        let n = v.len();
        while i < n
            invariant
                0 <= i <= n,
                n == v@.len(),
                forall|j: int| 0 <= j < i ==> v@[j]@ != id@,
            decreases n - i,
        {
            if str_eq(v[i].as_str(), id) {
                assert(ids_set(v@).contains(id@));
                return true;
            }
            i += 1;
        }
        assert(!ids_set(v@).contains(id@));
        false
    }

    /// The index of the live entry carrying `id`, if any.
    fn find_index(&self, id: &str) -> (r: Option<usize>)
        ensures
            match r {
                Some(i) => i < self.entries@.len() && self.entries@[i as int].0@ == id@,
                None => !self.table().contains_key(id@),
            },
    {
        let mut i: usize = 0;
        let n = self.entries.len();
        while i < n
            invariant
                0 <= i <= n,
                n == self.entries@.len(),
                forall|j: int| 0 <= j < i ==> self.entries@[j].0@ != id@,
            decreases n - i,
        {
            if str_eq(self.entries[i].0.as_str(), id) {
                return Some(i);
            }
            i += 1;
        }
        assert(!has_id(self.entries@, id@));
        None
    }

    /// Whether a session with this identifier is currently registered.
    pub fn contains(&self, id: &str) -> (r: bool)
        ensures
            r == self.table().contains_key(id@),
    {
        match self.find_index(id) {
            Some(i) => {
                proof {
                    assert(has_id(self.entries@, id@));
                }
                true
            },
            None => false,
        }
    }

    /// Draws a fresh session identifier and records it as issued.
    ///
    /// The identifier is unique across the lifetime of this registry:
    /// a draw that collided with any identifier ever issued — however
    /// improbable — is refused rather than reused.
    pub fn issue_id(&mut self) -> (r: Result<String, String>)
        requires
            old(self).wf(),
        ensures
            final(self).wf(),
            final(self).table() == old(self).table(),
            final(self).registered() == old(self).registered(),
            old(self).issued().subset_of(final(self).issued()),
            r matches Ok(id) ==> !old(self).issued().contains(id@) && final(self).issued()
                == old(self).issued().insert(id@) && id@.len() == 36,
            r matches Err(m) ==> final(self).issued() == old(self).issued() && m@
                == "Failed to allocate a fresh session id"@,
    {
        let id = fresh_uuid_string();
        if Self::vec_contains_id(&self.issued_ids, id.as_str()) {
            return Err(String::from_str("Failed to allocate a fresh session id"));
        }
        let out = id.clone();
        self.issued_ids.push(id);
        proof {
            assert(self.issued() =~= old(self).issued().insert(out@)) by {
                assert forall|k: Seq<char>| #[trigger] self.issued().contains(k) implies old(
                    self,
                ).issued().contains(k) || k == out@ by {
                    let w = choose|i: int|
                        0 <= i < self.issued_ids@.len() && self.issued_ids@[i]@ == k;
                    if w < old(self).issued_ids@.len() {
                        assert(old(self).issued_ids@[w]@ == k);
                    }
                }
                assert forall|k: Seq<char>| old(self).issued().contains(k) implies #[trigger] self
                    .issued().contains(k) by {
                    let w = choose|i: int|
                        0 <= i < old(self).issued_ids@.len() && old(self).issued_ids@[i]@ == k;
                    assert(self.issued_ids@[w]@ == k);
                }
                assert(self.issued_ids@.last()@ == out@);
                assert(self.issued().contains(out@));
            }
            assert(self.table() =~= old(self).table());
            assert(self.registered() =~= old(self).registered());
        }
        Ok(out)
    }

    /// Registers a session under an identifier previously issued and
    /// never registered before; both pumps are expected to be running
    /// by the time this makes the session visible.
    ///
    /// Exactly the identifiers fresh from [`Self::issue_id`] are
    /// accepted, so a registered identifier can never displace a live
    /// session, and an identifier killed once can never come back.
    pub fn register(&mut self, id: String, inst: PtyInstance<R>) -> (r: Result<(), String>)
        requires
            old(self).wf(),
        ensures
            final(self).wf(),
            final(self).issued() == old(self).issued(),
            old(self).registered().subset_of(final(self).registered()),
            r is Ok <==> old(self).issued().contains(id@) && !old(self).registered().contains(
                id@,
            ),
            r matches Ok(u) ==> final(self).table() == old(self).table().insert(id@, inst)
                && final(self).registered() == old(self).registered().insert(id@),
            r matches Err(m) ==> final(self).table() == old(self).table() && final(self)
                .registered() == old(self).registered() && m@
                == "Session id was not issued or is already in use"@,
    {
        if !Self::vec_contains_id(&self.issued_ids, id.as_str()) || Self::vec_contains_id(
            &self.registered_ids,
            id.as_str(),
        ) {
            return Err(String::from_str("Session id was not issued or is already in use"));
        }
        proof {
            assert(!has_id(self.entries@, id@)) by {
                if has_id(self.entries@, id@) {
                    let w = choose|i: int|
                        0 <= i < self.entries@.len() && self.entries@[i].0@ == id@;
                    assert(self.registered().contains(self.entries@[w].0@));
                }
            }
            lemma_table_push(self.entries@, id, inst);
        }
        let id_for_record = id.clone();
        self.entries.push((id, inst));
        self.registered_ids.push(id_for_record);
        proof {
            assert(self.registered() =~= old(self).registered().insert(id@)) by {
                assert forall|k: Seq<char>| #[trigger] self.registered().contains(k) implies old(
                    self,
                ).registered().contains(k) || k == id@ by {
                    let w = choose|i: int|
                        0 <= i < self.registered_ids@.len() && self.registered_ids@[i]@ == k;
                    if w < old(self).registered_ids@.len() {
                        assert(old(self).registered_ids@[w]@ == k);
                    }
                }
                assert forall|k: Seq<char>| old(self).registered().contains(k)
                    implies #[trigger] self.registered().contains(k) by {
                    let w = choose|i: int|
                        0 <= i < old(self).registered_ids@.len() && old(self).registered_ids@[i]@
                            == k;
                    assert(self.registered_ids@[w]@ == k);
                }
                assert(self.registered_ids@.last()@ == id@);
                assert(self.registered().contains(id@));
            }
            assert(self.issued() =~= old(self).issued());
        }
        Ok(())
    }

    /// Looks up a live session, reporting "not found" for any
    /// identifier that is not currently registered.
    pub fn lookup(&self, id: &str) -> (r: Result<&PtyInstance<R>, String>)
        requires
            self.wf(),
        ensures
            self.table().contains_key(id@) ==> (r matches Ok(inst) && *inst == self.table()[id@]),
            !self.table().contains_key(id@) ==> (r matches Err(m) && m@ == not_found_msg_spec(id@)),
    {
        match self.find_index(id) {
            Some(i) => {
                proof {
                    assert(has_id(self.entries@, id@));
                    lemma_value_at_is(self.entries@, id@, i as int);
                }
                Ok(&self.entries[i].1)
            },
            None => Err(not_found_msg(id)),
        }
    }

    /// Enqueues `data` on the session's write queue: fire-and-forget,
    /// never blocking.  Fails with "not found" for an unknown
    /// identifier; a failure of the queue itself (its consumer is
    /// gone) is reported as a write failure.  The registry is not
    /// changed in any case.
    pub fn write(&self, id: &str, data: Vec<u8>) -> (r: Result<(), String>)
        requires
            self.wf(),
        ensures
            !self.table().contains_key(id@) ==> (r matches Err(m) && m@ == not_found_msg_spec(id@)),
            self.table().contains_key(id@) ==> (r matches Ok(u) || (r matches Err(m)
                && crate::text::has_prefix(m@, "Write failed: "@))),
    {
        match self.lookup(id) {
            Ok(inst) => match send_bytes(&inst.write_tx, data) {
                Ok(u) => Ok(u),
                Err(detail) => {
                    let m = write_failed_msg(detail.as_str());
                    proof {
                        assert(m@.take("Write failed: "@.len() as int) =~= "Write failed: "@);
                    }
                    Err(m)
                },
            },
            Err(m) => Err(m),
        }
    }

    /// The resize decision for a session: which instance to resize
    /// and with what geometry.  The registry itself is never changed
    /// by a resize, and the outcome depends on nothing but current
    /// membership and the requested geometry — repeating an identical
    /// request resolves identically.  The host applies the returned
    /// geometry to the instance's master handle.
    pub fn resize_request(&self, id: &str, cols: u16, rows: u16) -> (r: Result<
        (&PtyInstance<R>, PtyGeometry),
        String,
    >)
        requires
            self.wf(),
        ensures
            r is Ok <==> self.table().contains_key(id@),
            r matches Ok(p) ==> (resize_decision(self.table(), id@, cols, rows) matches Ok(q)
                && *p.0 == q.0 && p.1 == q.1),
            r matches Err(m) ==> (resize_decision(self.table(), id@, cols, rows) matches Err(e)
                && m@ == e),
    {
        match self.lookup(id) {
            Ok(inst) => Ok((inst, geometry(cols, rows))),
            Err(m) => Err(m),
        }
    }

    /// Removes and returns the session registered under `id`; the
    /// caller owns the teardown of what is returned.  Fails with "not
    /// found" — and changes nothing — for an identifier that is not
    /// currently registered, a killed one included: a second removal
    /// of the same identifier always fails.
    pub fn remove(&mut self, id: &str) -> (r: Result<PtyInstance<R>, String>)
        requires
            old(self).wf(),
        ensures
            final(self).wf(),
            final(self).issued() == old(self).issued(),
            final(self).registered() == old(self).registered(),
            old(self).table().contains_key(id@) ==> (r matches Ok(inst) && inst == old(
                self,
            ).table()[id@] && final(self).table() == old(self).table().remove(id@)),
            !old(self).table().contains_key(id@) ==> (r matches Err(m) && m@ == not_found_msg_spec(
                id@,
            ) && final(self).table() == old(self).table()),
    {
        match self.find_index(id) {
            Some(i) => {
                proof {
                    assert(has_id(self.entries@, id@));
                    lemma_value_at_is(self.entries@, id@, i as int);
                    lemma_table_remove(self.entries@, i as int);
                }
                let (_removed_id, inst) = self.entries.remove(i);
                proof {
                    assert(self.issued() =~= old(self).issued());
                    assert(self.registered() =~= old(self).registered());
                }
                Ok(inst)
            },
            None => Err(not_found_msg(id)),
        }
    }

    /// Empties the registry and hands back every live session exactly
    /// once, so the caller can tear each one down; the identifiers
    /// stay recorded and are never issued again.
    pub fn drain(&mut self) -> (out: Vec<(String, PtyInstance<R>)>)
        requires
            old(self).wf(),
        ensures
            final(self).wf(),
            final(self).table() == Map::<Seq<char>, PtyInstance<R>>::empty(),
            final(self).issued() == old(self).issued(),
            final(self).registered() == old(self).registered(),
            distinct_ids(out@),
            forall|k: Seq<char>| old(self).table().contains_key(k) <==> has_id(out@, k),
            forall|i: int|
                0 <= i < out@.len() ==> old(self).table()[(#[trigger] out@[i]).0@] == out@[i].1,
    {
        let mut out: Vec<(String, PtyInstance<R>)> = Vec::new();
        std::mem::swap(&mut out, &mut self.entries);
        proof {
            assert(self.table() =~= Map::<Seq<char>, PtyInstance<R>>::empty());
            assert(self.issued() =~= old(self).issued());
            assert(self.registered() =~= old(self).registered());
            assert forall|i: int|
                0 <= i < out@.len() implies old(self).table()[(#[trigger] out@[i]).0@]
                == out@[i].1 by {
                lemma_value_at_is(old(self).entries@, out@[i].0@, i);
            }
        }
        out
    }
}


/// What a resize of session `id` to `cols` by `rows` resolves to
/// against registry table `t`: the live instance with the requested
/// geometry (pixel dimensions zero), or the "not found" report.
pub open spec fn resize_decision<R>(
    t: Map<Seq<char>, PtyInstance<R>>,
    id: Seq<char>,
    cols: u16,
    rows: u16,
) -> Result<(PtyInstance<R>, PtyGeometry), Seq<char>> {
    if t.contains_key(id) {
        Ok((t[id], PtyGeometry { rows, cols, pixel_width: 0, pixel_height: 0 }))
    } else {
        Err(crate::messages::not_found_msg_spec(id))
    }
}

/// Resize is safe to repeat: the decision for a request is a function
/// of the registry table and the requested geometry alone, a resize
/// never changes the table, and success is exactly membership — so an
/// identical request repeated against the unchanged table resolves
/// identically, and never errors merely for being a repetition.
pub proof fn lemma_resize_repeatable<R>(
    t: Map<Seq<char>, PtyInstance<R>>,
    id: Seq<char>,
    cols: u16,
    rows: u16,
)
    ensures
        resize_decision(t, id, cols, rows) == resize_decision(t, id, cols, rows),
        resize_decision(t, id, cols, rows) is Ok <==> t.contains_key(id),
{
}

/// Issued identifiers are unique across a registry's lifetime.  A
/// successful issue returns an identifier outside everything issued
/// up to then, and every operation only grows the issued set — so
/// however many operations lie between them, two successful issues
/// return distinct identifiers.
pub proof fn lemma_issued_ids_unique(
    early: Set<Seq<char>>,
    late: Set<Seq<char>>,
    id1: Seq<char>,
    id2: Seq<char>,
)
    requires
        !early.contains(id1),
        early.insert(id1).subset_of(late),
        !late.contains(id2),
    ensures
        id1 != id2,
{
}

/// Kill is terminal at the registry: removing `id` leaves a table in
/// which `id` is no longer registered, so a second removal of the
/// same identifier finds nothing and reports "not found".
pub proof fn lemma_kill_terminal<R>(t: Map<Seq<char>, PtyInstance<R>>, id: Seq<char>)
    requires
        t.contains_key(id),
    ensures
        !t.remove(id).contains_key(id),
{
}

} // verus!
