//! The installer registry — the process-wide collection of registration
//! records — and the materializer that drains it into the dispatch table
//! during host startup.

use vstd::prelude::*;
use crate::contract::{NoEvent, TransitionEvent};
use crate::record::{
    installed_map, registered_keys, unique_keys, InstallKind, RegistrationRecord,
    lemma_installed_domain,
};
use crate::table::DispatchTable;

verus! {

/// The identity that two registration records both carry, reported when
/// strict materialization refuses a registry.
#[derive(Clone, Copy, PartialEq, Eq, Structural, Debug)]
pub struct DuplicateIdentity {
    /// The identity that was registered more than once.
    pub key: u64,
}

/// The append-only collection of registration records assembled during host
/// startup, before any trigger event is processed. Hosts without a
/// static-construction collection mechanism run an explicit two-phase
/// startup: first every known trigger-event type is registered here, then
/// [`InstallerRegistry::materialize`] builds the dispatch table once.
pub struct InstallerRegistry {
    records: Vec<RegistrationRecord>,
}

impl View for InstallerRegistry {
    type V = Seq<RegistrationRecord>;

    closed spec fn view(&self) -> Seq<RegistrationRecord> {
        self.records@
    }
}

impl InstallerRegistry {
    /// An empty registry, the first step of the explicit two-phase startup.
    pub fn new() -> (r: Self)
        ensures
            r@ == Seq::<RegistrationRecord>::empty(),
    {
        InstallerRegistry { records: Vec::new() }
    }

    /// How many records have been submitted so far.
    pub fn len(&self) -> (n: usize)
        ensures
            n == self@.len(),
    {
        self.records.len()
    }

    /// Append one registration record. The registry never deduplicates:
    /// submitting two records for one identity is a caller error that
    /// materialization resolves by overwrite, not a fault here.
    pub fn submit(&mut self, record: RegistrationRecord)
        ensures
            final(self)@ == old(self)@.push(record),
    {
        self.records.push(record);
    }

    /// Register `T`, conforming via the simple variant: materialization will
    /// install the always-no-sub-event behaviour for `T`'s identity.
    pub fn register_transition<
        T: TransitionEvent<ExitEvent = NoEvent, EffectEvent = NoEvent, EntryEvent = NoEvent>,
    >(&mut self)
        ensures
            final(self)@ == old(self)@.push(
                (RegistrationRecord { key: T::key_spec(), kind: InstallKind::Simple }),
            ),
    {
        let record = RegistrationRecord::simple::<T>();
        self.submit(record);
    }

    /// Register `T`, conforming via the full variant: materialization will
    /// install the behaviour that delegates to `T`'s own contract
    /// conversions.
    pub fn install_transition<T: TransitionEvent>(&mut self)
        ensures
            final(self)@ == old(self)@.push(
                (RegistrationRecord { key: T::key_spec(), kind: InstallKind::Full }),
            ),
    {
        let record = RegistrationRecord::full::<T>();
        self.submit(record);
    }

    /// Materialize the registry: invoke every record's install operation
    /// against a fresh, empty table and return the fully populated result.
    /// Every registered identity is present in it, mapped to the behaviour
    /// of its latest registration; the registry itself is left untouched, so
    /// materializing again yields a table with the same mapping.
    pub fn materialize(&self) -> (t: DispatchTable)
        ensures
            t.wf(),
            t@ == installed_map(self@),
    {
        let mut t = DispatchTable::new();
        let n = self.records.len();
        let mut i: usize = 0;
        while i < n
            invariant
                n == self.records@.len(),
                i <= n,
                t.wf(),
                t@ == installed_map(self.records@.take(i as int)),
            decreases n - i,
        {
            proof {
                assert(self.records@.take(i as int + 1).drop_last() =~= self.records@.take(
                    i as int,
                ));
                assert(self.records@.take(i as int + 1).last() == self.records@[i as int]);
            }
            let record = self.records[i];
            record.install(&mut t);
            i += 1;
        }
        proof {
            assert(self.records@.take(n as int) =~= self.records@);
        }
        t
    }

    /// Strict materialization: succeeds exactly when no identity was
    /// registered twice, and then builds the same table as
    /// [`InstallerRegistry::materialize`]. A registry with a collision is
    /// refused, naming one identity registered more than once, instead of
    /// resolving the collision by silent overwrite.
    pub fn materialize_strict(&self) -> (r: Result<DispatchTable, DuplicateIdentity>)
        ensures
            r is Ok <==> unique_keys(self@),
            r is Ok ==> (r->Ok_0).wf() && (r->Ok_0)@ == installed_map(self@),
            r is Err ==> exists|a: int, b: int|
                0 <= a < b < self@.len() && self@[a].key == self@[b].key && self@[b].key == (
                r->Err_0).key,
    {
        let mut t = DispatchTable::new();
        let n = self.records.len();
        let mut i: usize = 0;
        while i < n
            invariant
                n == self.records@.len(),
                i <= n,
                t.wf(),
                t@ == installed_map(self.records@.take(i as int)),
                unique_keys(self.records@.take(i as int)),
            decreases n - i,
        {
            let record = self.records[i];
            proof {
                lemma_installed_domain(self.records@.take(i as int));
            }
            if t.contains_key(record.key) {
                proof {
                    let w = choose|w: int|
                        0 <= w < i && self.records@.take(i as int)[w].key == record.key;
                    assert(self.records@[w].key == self.records@[i as int].key);
                }
                return Err(DuplicateIdentity { key: record.key });
            }
            proof {
                let s0 = self.records@.take(i as int);
                let s1 = self.records@.take(i as int + 1);
                assert(s1.drop_last() =~= s0);
                assert(s1.last() == self.records@[i as int]);
                assert forall|a: int, b: int| #![trigger s1[a], s1[b]]
                    0 <= a < b < s1.len() implies s1[a].key != s1[b].key by {
                    assert(s1[a] == s0[a]);
                    if b < i {
                        assert(s1[b] == s0[b]);
                        assert(s0[a].key != s0[b].key);
                    } else {
                        assert(!registered_keys(s0).contains(self.records@[i as int].key));
                        assert(s0[a].key != self.records@[i as int].key);
                    }
                }
                assert(unique_keys(s1));
            }
            record.install(&mut t);
            i += 1;
        }
        proof {
            assert(self.records@.take(n as int) =~= self.records@);
        }
        Ok(t)
    }
}

} // verus!
