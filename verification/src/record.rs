//! Registration records: immutable descriptors pairing a type identity with
//! the install behaviour chosen for it, and the mathematical account of what
//! installing a sequence of records produces.

use vstd::prelude::*;
use crate::contract::{NoEvent, TransitionEvent};

verus! {

/// Which conversion behaviour a registration installs for its type.
#[derive(Clone, Copy, PartialEq, Eq, Structural, Debug)]
pub enum InstallKind {
    /// The installed entry always yields no sub-event, for all three phases.
    Simple,
    /// The installed entry delegates to the type's own contract conversions.
    Full,
}

/// An immutable descriptor of one registered trigger-event type: its stable
/// identity and the install behaviour chosen for it. One record is produced
/// per registered type, at program-definition time, and never mutated.
#[derive(Clone, Copy, PartialEq, Eq, Structural, Debug)]
pub struct RegistrationRecord {
    /// The registered type's stable identity.
    pub key: u64,
    /// The conversion behaviour its install operation writes into the table.
    pub kind: InstallKind,
}

impl RegistrationRecord {
    /// The record emitted for a type conforming via the simple variant: its
    /// install operation writes the always-no-sub-event behaviour.
    pub fn simple<T: TransitionEvent<ExitEvent = NoEvent, EffectEvent = NoEvent, EntryEvent = NoEvent>>()
        -> (r: Self)
        ensures
            r == (RegistrationRecord { key: T::key_spec(), kind: InstallKind::Simple }),
    {
        RegistrationRecord { key: T::type_key(), kind: InstallKind::Simple }
    }

    /// The record emitted for a type conforming via the full variant: its
    /// install operation writes the delegate-to-the-contract behaviour.
    pub fn full<T: TransitionEvent>() -> (r: Self)
        ensures
            r == (RegistrationRecord { key: T::key_spec(), kind: InstallKind::Full }),
    {
        RegistrationRecord { key: T::type_key(), kind: InstallKind::Full }
    }
}

/// The set of identities that occur in a sequence of registration records,
/// irrespective of order and of how often each occurs.
pub open spec fn registered_keys(records: Seq<RegistrationRecord>) -> Set<u64> {
    Set::new(|k: u64| exists|i: int| 0 <= i < records.len() && records[i].key == k)
}

/// The dispatch mapping obtained by installing the records in order into an
/// empty table: each record writes its behaviour under its key, a later
/// record silently overwriting an earlier one with the same key.
pub open spec fn installed_map(records: Seq<RegistrationRecord>) -> Map<u64, InstallKind>
    decreases records.len(),
{
    if records.len() == 0 {
        Map::<u64, InstallKind>::empty()
    } else {
        installed_map(records.drop_last()).insert(records.last().key, records.last().kind)
    }
}

/// How many records of a sequence carry the given identity.
pub open spec fn key_count(records: Seq<RegistrationRecord>, k: u64) -> nat
    decreases records.len(),
{
    if records.len() == 0 {
        0
    } else {
        key_count(records.drop_last(), k) + if records.last().key == k { 1nat } else { 0nat }
    }
}

/// No two records of the sequence share an identity.
pub open spec fn unique_keys(records: Seq<RegistrationRecord>) -> bool {
    forall|i: int, j: int|
        0 <= i < j < records.len() ==> records[i].key != records[j].key
}

/// Law: installing a sequence of records populates exactly the identities
/// that occur in it — every registered type is present in the result, and no
/// identity appears that was never registered.
pub proof fn lemma_installed_domain(records: Seq<RegistrationRecord>)
    ensures
        installed_map(records).dom() == registered_keys(records),
    decreases records.len(),
{
    if records.len() == 0 {
        assert(installed_map(records).dom() =~= registered_keys(records));
    } else {
        lemma_installed_domain(records.drop_last());
        assert forall|k: u64| registered_keys(records).contains(k)
            implies installed_map(records).dom().contains(k) by {
            let i = choose|i: int| 0 <= i < records.len() && records[i].key == k;
            if i < records.len() - 1 {
                assert(records.drop_last()[i].key == k);
                assert(registered_keys(records.drop_last()).contains(k));
            }
        }
        assert forall|k: u64| installed_map(records).dom().contains(k)
            implies registered_keys(records).contains(k) by {
            if k == records.last().key {
                assert(records[records.len() - 1].key == k);
            } else {
                let i = choose|i: int|
                    0 <= i < records.drop_last().len() && records.drop_last()[i].key == k;
                assert(records[i].key == k);
            }
        }
        assert(installed_map(records).dom() =~= registered_keys(records));
    }
}

/// Law: the behaviour installed for an identity is the one of its latest
/// registration — a later record for the same identity silently overwrites an
/// earlier one.
pub proof fn lemma_installed_last_wins(records: Seq<RegistrationRecord>, i: int)
    requires
        0 <= i < records.len(),
        forall|j: int| i < j < records.len() ==> records[j].key != records[i].key,
    ensures
        installed_map(records).dom().contains(records[i].key),
        installed_map(records)[records[i].key] == records[i].kind,
    decreases records.len(),
{
    if i == records.len() - 1 {
    } else {
        assert(records.drop_last()[i] == records[i]);
        lemma_installed_last_wins(records.drop_last(), i);
        assert(records.last().key != records[i].key);
    }
}

/// Law: an identity all of whose registrations chose one behaviour is
/// installed with that behaviour. In particular a type registered only via
/// the simple installer dispatches to no sub-events, and one registered only
/// via the full installer dispatches to its own contract conversions.
pub proof fn lemma_installed_kind(records: Seq<RegistrationRecord>, k: u64, kind: InstallKind)
    requires
        registered_keys(records).contains(k),
        forall|i: int| 0 <= i < records.len() && records[i].key == k ==> records[i].kind == kind,
    ensures
        installed_map(records).dom().contains(k),
        installed_map(records)[k] == kind,
{
    let i = lemma_last_index_with_key(records, k);
    lemma_installed_last_wins(records, i);
}

/// For an identity that occurs in the sequence, yields the index of its
/// latest occurrence.
proof fn lemma_last_index_with_key(records: Seq<RegistrationRecord>, k: u64) -> (i: int)
    requires
        registered_keys(records).contains(k),
    ensures
        0 <= i < records.len(),
        records[i].key == k,
        forall|j: int| i < j < records.len() ==> records[j].key != k,
    decreases records.len(),
{
    if records.last().key == k {
        records.len() - 1
    } else {
        let w = choose|w: int| 0 <= w < records.len() && records[w].key == k;
        assert(records.drop_last()[w].key == k);
        assert(registered_keys(records.drop_last()).contains(k));
        let i = lemma_last_index_with_key(records.drop_last(), k);
        assert(records[i] == records.drop_last()[i]);
        assert forall|j: int| i < j < records.len() implies records[j].key != k by {
            if j < records.len() - 1 {
                assert(records[j] == records.drop_last()[j]);
            }
        }
        i
    }
}

/// Law: the set of installed identities depends only on which identities were
/// registered, not on the order of the records nor on how often an identity
/// was registered.
pub proof fn lemma_installed_domain_agrees(
    r1: Seq<RegistrationRecord>,
    r2: Seq<RegistrationRecord>,
)
    requires
        registered_keys(r1) == registered_keys(r2),
    ensures
        installed_map(r1).dom() == installed_map(r2).dom(),
{
    lemma_installed_domain(r1);
    lemma_installed_domain(r2);
}

/// Law: two registries holding the same records, in whatever order each was
/// populated, install the same set of identities — the materialized key set
/// does not depend on the order in which the records are drained.
pub proof fn lemma_installed_domain_permutation(
    r1: Seq<RegistrationRecord>,
    r2: Seq<RegistrationRecord>,
)
    requires
        r1.to_multiset() == r2.to_multiset(),
    ensures
        installed_map(r1).dom() == installed_map(r2).dom(),
{
    r1.to_multiset_ensures();
    r2.to_multiset_ensures();
    assert forall|k: u64| registered_keys(r1).contains(k)
        implies registered_keys(r2).contains(k) by {
        let i = choose|i: int| 0 <= i < r1.len() && r1[i].key == k;
        let rec = r1[i];
        assert(r1.contains(rec));
        assert(r1.to_multiset().count(rec) > 0);
        assert(r2.to_multiset().count(rec) > 0);
        assert(r2.contains(rec));
        let j = choose|j: int| 0 <= j < r2.len() && r2[j] == rec;
        assert(r2[j].key == k);
    }
    assert forall|k: u64| registered_keys(r2).contains(k)
        implies registered_keys(r1).contains(k) by {
        let i = choose|i: int| 0 <= i < r2.len() && r2[i].key == k;
        let rec = r2[i];
        assert(r2.contains(rec));
        assert(r2.to_multiset().count(rec) > 0);
        assert(r1.to_multiset().count(rec) > 0);
        assert(r1.contains(rec));
        let j = choose|j: int| 0 <= j < r1.len() && r1[j] == rec;
        assert(r1[j].key == k);
    }
    assert(registered_keys(r1) =~= registered_keys(r2));
    lemma_installed_domain_agrees(r1, r2);
}

} // verus!
