//! The runtime dispatch table: a mapping from type identity to installed
//! conversion behaviour, built once at startup and read-only afterwards.

use vstd::prelude::*;
use crate::contract::TransitionEvent;
use crate::record::{
    installed_map, key_count, registered_keys, unique_keys, InstallKind, RegistrationRecord,
    lemma_installed_domain, lemma_installed_last_wins,
};

verus! {

/// The dispatch table the materializer builds: one row per installed type
/// identity, holding the conversion behaviour chosen for it. Viewed as the
/// mapping from identity to behaviour; the rows never hold two entries for
/// one identity.
pub struct DispatchTable {
    rows: Vec<RegistrationRecord>,
}

impl View for DispatchTable {
    type V = Map<u64, InstallKind>;

    closed spec fn view(&self) -> Map<u64, InstallKind> {
        installed_map(self.rows@)
    }
}

impl DispatchTable {
    /// The table's rows, one per installed identity.
    pub closed spec fn entries(&self) -> Seq<RegistrationRecord> {
        self.rows@
    }

    /// Well-formedness: no identity occupies two rows.
    pub open spec fn wf(&self) -> bool {
        unique_keys(self.entries())
    }

    /// A fresh, empty table, ready for the materializer to fill.
    pub fn new() -> (t: Self)
        ensures
            t.wf(),
            t@ == Map::<u64, InstallKind>::empty(),
            t.entries() == Seq::<RegistrationRecord>::empty(),
    {
        let t = DispatchTable { rows: Vec::new() };
        proof {
            assert(t.entries() =~= Seq::<RegistrationRecord>::empty());
            assert(t@ =~= Map::<u64, InstallKind>::empty());
        }
        t
    }

    /// How many identities the table holds.
    pub fn len(&self) -> (n: usize)
        ensures
            n == self.entries().len(),
    {
        self.rows.len()
    }

    /// Install `kind` as the behaviour of identity `key`: the existing row
    /// for `key` is silently overwritten if there is one, and a new row is
    /// appended otherwise.
    pub fn insert(&mut self, key: u64, kind: InstallKind)
        requires
            old(self).wf(),
        ensures
            final(self).wf(),
            final(self)@ == old(self)@.insert(key, kind),
    {
        let n = self.rows.len();
        let mut i: usize = 0;
        while i < n
            invariant
                old(self).wf(),
                self.rows@ == old(self).rows@,
                n == self.rows@.len(),
                i <= n,
                forall|j: int| 0 <= j < i ==> self.rows@[j].key != key,
            decreases n - i,
        {
            if self.rows[i].key == key {
                self.rows[i] = RegistrationRecord { key, kind };
                proof {
                    let s = old(self).rows@;
                    let r = (RegistrationRecord { key, kind });
                    assert forall|a: int, b: int|
                        0 <= a < b < s.update(i as int, r).len()
                        implies s.update(i as int, r)[a].key != s.update(i as int, r)[b].key by {
                        assert(s[a].key != s[b].key);
                    }
                    lemma_installed_update(s, i as int, r);
                }
                return;
            }
            i += 1;
        }
        self.rows.push(RegistrationRecord { key, kind });
        proof {
            let s = old(self).rows@;
            let r = (RegistrationRecord { key, kind });
            assert(self.rows@.drop_last() =~= s);
            assert(self.rows@.last() == r);
            assert forall|a: int, b: int|
                0 <= a < b < self.rows@.len()
                implies self.rows@[a].key != self.rows@[b].key by {
                if b < self.rows@.len() - 1 {
                    assert(s[a].key != s[b].key);
                } else {
                    assert(s[a].key != key);
                }
            }
        }
    }

    /// The behaviour installed for identity `key`, or `None` if no type with
    /// that identity was ever registered: absence is reported, never a
    /// fabricated default.
    pub fn lookup(&self, key: u64) -> (r: Option<InstallKind>)
        requires
            self.wf(),
        ensures
            r == (if self@.dom().contains(key) {
                Some(self@[key])
            } else {
                None::<InstallKind>
            }),
    {
        let n = self.rows.len();
        let mut i: usize = 0;
        while i < n
            invariant
                self.wf(),
                n == self.rows@.len(),
                i <= n,
                forall|j: int| 0 <= j < i ==> self.rows@[j].key != key,
            decreases n - i,
        {
            if self.rows[i].key == key {
                let kind = self.rows[i].kind;
                proof {
                    assert forall|j: int| i < j < self.rows@.len()
                        implies self.rows@[j].key != self.rows@[i as int].key by {
                        assert(self.rows@[i as int].key != self.rows@[j].key);
                    }
                    lemma_installed_last_wins(self.rows@, i as int);
                }
                return Some(kind);
            }
            i += 1;
        }
        proof {
            lemma_installed_domain(self.rows@);
            if registered_keys(self.rows@).contains(key) {
                let w = choose|w: int| 0 <= w < self.rows@.len() && self.rows@[w].key == key;
                assert(self.rows@[w].key != key);
            }
        }
        None
    }

    /// Whether a type with identity `key` was installed.
    pub fn contains_key(&self, key: u64) -> (b: bool)
        requires
            self.wf(),
        ensures
            b == self@.dom().contains(key),
    {
        self.lookup(key).is_some()
    }

    /// How many rows hold identity `key`. A well-formed table yields one for
    /// every installed identity and zero for every other.
    pub fn entry_count(&self, key: u64) -> (n: usize)
        ensures
            n == key_count(self.entries(), key),
    {
        let m = self.rows.len();
        let mut i: usize = 0;
        let mut c: usize = 0;
        while i < m
            invariant
                m == self.rows@.len(),
                i <= m,
                c <= i,
                c == key_count(self.rows@.take(i as int), key),
            decreases m - i,
        {
            proof {
                assert(self.rows@.take(i as int + 1).drop_last() =~= self.rows@.take(i as int));
                assert(self.rows@.take(i as int + 1).last() == self.rows@[i as int]);
            }
            if self.rows[i].key == key {
                c += 1;
            }
            i += 1;
        }
        proof {
            assert(self.rows@.take(m as int) =~= self.rows@);
        }
        c
    }

    /// Runtime check of [`DispatchTable::wf`], for callers that obtained a
    /// table from outside verified code.
    pub fn check_well_formed(&self) -> (b: bool)
        ensures
            b == self.wf(),
    {
        let n = self.rows.len();
        let mut i: usize = 0;
        while i < n
            invariant
                n == self.rows@.len(),
                i <= n,
                forall|a: int, b: int|
                    0 <= a < b < n && a < i ==> self.rows@[a].key != self.rows@[b].key,
            decreases n - i,
        {
            let mut j: usize = i + 1;
            while j < n
                invariant
                    n == self.rows@.len(),
                    i < n,
                    i < j <= n,
                    forall|b: int| i < b < j ==> self.rows@[i as int].key != self.rows@[b].key,
                decreases n - j,
            {
                if self.rows[i].key == self.rows[j].key {
                    proof {
                        assert(!unique_keys(self.rows@)) by {
                            assert(self.rows@[i as int].key == self.rows@[j as int].key);
                        }
                    }
                    return false;
                }
                j += 1;
            }
            i += 1;
        }
        true
    }

    /// Look the trigger-event type of `ev` up and apply the installed
    /// behaviour to `ev`: `None` if the type was never installed; otherwise
    /// the three optional phase sub-events — all absent for a type installed
    /// with the always-no-sub-event behaviour, and exactly what the type's
    /// own contract conversions yield for one installed with the delegating
    /// behaviour.
    pub fn dispatch<T: TransitionEvent>(&self, ev: &T) -> (r: Option<
        (Option<T::ExitEvent>, Option<T::EffectEvent>, Option<T::EntryEvent>),
    >)
        requires
            self.wf(),
        ensures
            r is Some <==> self@.dom().contains(T::key_spec()),
            self@.dom().contains(T::key_spec()) && self@[T::key_spec()] == InstallKind::Simple
                ==> r == Some((None::<T::ExitEvent>, None::<T::EffectEvent>, None::<T::EntryEvent>)),
            self@.dom().contains(T::key_spec()) && self@[T::key_spec()] == InstallKind::Full
                ==> r == Some((ev.exit_spec(), ev.effect_spec(), ev.entry_spec())),
    {
        match self.lookup(T::type_key()) {
            None => None,
            Some(InstallKind::Simple) => Some((None, None, None)),
            Some(InstallKind::Full) => Some(
                (ev.to_exit_event(), ev.to_effect_event(), ev.to_entry_event()),
            ),
        }
    }
}

impl RegistrationRecord {
    /// The record's install operation: writes the record's behaviour into
    /// `table` under the record's identity, silently overwriting whatever an
    /// earlier record installed there.
    pub fn install(&self, table: &mut DispatchTable)
        requires
            old(table).wf(),
        ensures
            final(table).wf(),
            final(table)@ == old(table)@.insert(self.key, self.kind),
    {
        table.insert(self.key, self.kind);
    }
}

/// Replacing the row at `i` by a record with the same identity installs that
/// record's behaviour, exactly as inserting it into the mapping would.
proof fn lemma_installed_update(s: Seq<RegistrationRecord>, i: int, r: RegistrationRecord)
    requires
        unique_keys(s),
        0 <= i < s.len(),
        s[i].key == r.key,
    ensures
        installed_map(s.update(i, r)) == installed_map(s).insert(r.key, r.kind),
    decreases s.len(),
{
    let t = s.update(i, r);
    if i == s.len() - 1 {
        assert(t.drop_last() =~= s.drop_last());
        assert(t.last() == r);
        assert(installed_map(s.drop_last()).insert(s.last().key, s.last().kind).insert(
            r.key,
            r.kind,
        ) =~= installed_map(s.drop_last()).insert(r.key, r.kind));
    } else {
        assert(t.drop_last() =~= s.drop_last().update(i, r));
        assert(t.last() == s.last());
        assert forall|a: int, b: int|
            0 <= a < b < s.drop_last().len()
            implies s.drop_last()[a].key != s.drop_last()[b].key by {
            assert(s[a].key != s[b].key);
        }
        assert(s.drop_last()[i] == s[i]);
        lemma_installed_update(s.drop_last(), i, r);
        assert(s.last().key != r.key);
        assert(installed_map(s.drop_last()).insert(r.key, r.kind).insert(
            s.last().key,
            s.last().kind,
        ) =~= installed_map(s.drop_last()).insert(s.last().key, s.last().kind).insert(
            r.key,
            r.kind,
        ));
    }
}

/// In a sequence of records with pairwise distinct identities, an identity
/// that occurs at all occurs exactly once.
proof fn lemma_unique_key_count(s: Seq<RegistrationRecord>, k: u64)
    requires
        unique_keys(s),
    ensures
        registered_keys(s).contains(k) ==> key_count(s, k) == 1,
        !registered_keys(s).contains(k) ==> key_count(s, k) == 0,
    decreases s.len(),
{
    if s.len() == 0 {
        assert(!registered_keys(s).contains(k));
    } else {
        assert forall|a: int, b: int|
            0 <= a < b < s.drop_last().len()
            implies s.drop_last()[a].key != s.drop_last()[b].key by {
            assert(s[a].key != s[b].key);
        }
        lemma_unique_key_count(s.drop_last(), k);
        if s.last().key == k {
            if registered_keys(s.drop_last()).contains(k) {
                let w = choose|w: int|
                    0 <= w < s.drop_last().len() && s.drop_last()[w].key == k;
                assert(s[w].key == s[s.len() - 1].key);
                assert(false);
            }
            assert(s[s.len() - 1].key == k);
            assert(registered_keys(s).contains(k));
        } else {
            if registered_keys(s).contains(k) {
                let w = choose|w: int| 0 <= w < s.len() && s[w].key == k;
                assert(s.drop_last()[w].key == k);
                assert(registered_keys(s.drop_last()).contains(k));
            } else {
                if registered_keys(s.drop_last()).contains(k) {
                    let w = choose|w: int|
                        0 <= w < s.drop_last().len() && s.drop_last()[w].key == k;
                    assert(s[w].key == k);
                    assert(false);
                }
            }
        }
    }
}

/// Law: a well-formed table holds exactly one row for every identity it
/// maps — in particular, registering an identity twice leaves a single row
/// for it after materialization, never a duplicated one.
pub proof fn lemma_single_row_per_key(t: DispatchTable, k: u64)
    requires
        t.wf(),
        t@.dom().contains(k),
    ensures
        key_count(t.entries(), k) == 1,
{
    lemma_table_view(t);
    lemma_installed_domain(t.entries());
    lemma_unique_key_count(t.entries(), k);
}

/// The table's mapping is the one its rows install.
pub proof fn lemma_table_view(t: DispatchTable)
    ensures
        t@ == installed_map(t.entries()),
{
}

} // verus!
