//! The alert registry.
//!
//! Two structures that must never disagree: the alert store, keyed by
//! (monitor, alert number), and the derived alert index, a set of
//! (member, service, alert type) triples that enforces uniqueness of live
//! alerts and is re-derivable from the store alone. Registration writes
//! both or neither; clearing removes the record together with the triple the
//! record carries; the epoch hook rebuilds the whole index from the store.
//!
//! The registry maintains, as its well-formedness invariant, that every
//! live record's triple is indexed and that no two live records carry the
//! same triple. An index entry without a live record can arise when a
//! monitor overwrites one of its own records under the same (monitor,
//! alert number) key; the rebuild heals such drift.

use vstd::prelude::*;

use crate::ids::AccountId;
use crate::ids::AlertType;
use crate::ids::DomainId;
use crate::ids::ServiceId;
use crate::kv;
use crate::member::MemberStore;
use crate::roles::RoleStore;
use crate::service::ServiceStore;

verus! {

/// Primary key of an alert: the submitting monitor and the number it chose.
#[derive(Clone, Copy, Debug, PartialEq, Eq, Structural)]
pub struct AlertKey {
    pub monitor_id: AccountId,
    pub alert_id: u64,
}

/// An alert record.
#[derive(Debug, PartialEq, Eq)]
pub struct AlertData {
    pub monitor_id: AccountId,
    pub alert_id: u64,
    pub member_id: AccountId,
    pub domain_id: DomainId,
    pub service_id: ServiceId,
    pub alert_type: AlertType,
}

/// An entry of the derived index: the uniqueness triple of one alert.
#[derive(Debug, PartialEq, Eq)]
pub struct IndexKey {
    pub member_id: AccountId,
    pub service_id: ServiceId,
    pub alert_type: AlertType,
}

/// What an index entry denotes.
pub type IndexTriple = (AccountId, Seq<u8>, Seq<u8>);

impl View for IndexKey {
    type V = IndexTriple;

    open spec fn view(&self) -> IndexTriple {
        (self.member_id, self.service_id@, self.alert_type@)
    }
}

/// The uniqueness triple an alert record carries.
pub open spec fn triple_of(d: AlertData) -> IndexTriple {
    (d.member_id, d.service_id@, d.alert_type@)
}

/// The triples of all live alerts.
pub open spec fn live_triples(m: Map<AlertKey, AlertData>) -> Set<IndexTriple> {
    Set::new(
        |t: IndexTriple| exists|k: AlertKey| #[trigger] m.contains_key(k) && triple_of(m[k]) == t,
    )
}

/// Why an alert operation was refused.
#[derive(Clone, Copy, Debug, PartialEq, Eq, Structural)]
pub enum Error {
    AlertNotFound,
    MemberNotFound,
    MemberNotActive,
    ServiceNotFound,
    ServiceNotActive,
    NotAMonitor,
    NotACurator,
    BadOriginOrNotACurator,
    MemberServiceAlertExists,
}

/// The notification a successful alert operation returns.
#[derive(Debug, PartialEq, Eq)]
pub enum Event {
    AlertRegistered(AccountId, ServiceId, DomainId, AlertType),
    AlertCleared(AccountId, ServiceId, DomainId, AlertType),
    AlertIndexGenerated,
}

/// The alert store and its derived uniqueness index.
pub struct AlertRegistry {
    alerts: Vec<(AlertKey, AlertData)>,
    index: Vec<IndexKey>,
}

/// The slot holding the key, when one does.
fn find_alert(v: &Vec<(AlertKey, AlertData)>, key: AlertKey) -> (r: Option<usize>)
    ensures
        match r {
            Some(i) => i < v@.len() && v@[i as int].0 == key && kv::assoc_map(v@).contains_key(key),
            None => !kv::assoc_map(v@).contains_key(key),
        },
{
    let mut i: usize = 0;
    while i < v.len()
        invariant
            i <= v@.len(),
            forall|j: int| 0 <= j < i ==> (#[trigger] v@[j]).0 != key,
        decreases v@.len() - i,
    {
        if v[i].0.monitor_id == key.monitor_id && v[i].0.alert_id == key.alert_id {
            proof {
                kv::lemma_assoc_contains(v@, key);
            }
            return Some(i);
        }
        i += 1;
    }
    proof {
        kv::lemma_assoc_contains(v@, key);
    }
    None
}

/// The slot holding the triple, when one does.
fn find_triple(
    v: &Vec<IndexKey>,
    member_id: AccountId,
    service_id: &ServiceId,
    alert_type: &AlertType,
) -> (r: Option<usize>)
    ensures
        match r {
            Some(i) => i < v@.len() && v@[i as int]@ == (member_id, service_id@, alert_type@)
                && v@.map_values(|k: IndexKey| k@).to_set().contains(
                    (member_id, service_id@, alert_type@),
                ),
            None => !v@.map_values(|k: IndexKey| k@).to_set().contains(
                (member_id, service_id@, alert_type@),
            ),
        },
{
    let mut i: usize = 0;
    while i < v.len()
        invariant
            i <= v@.len(),
            forall|j: int| 0 <= j < i ==> (#[trigger] v@[j])@ != (member_id, service_id@, alert_type@),
        decreases v@.len() - i,
    {
        let hit = v[i].member_id == member_id && v[i].service_id.eq_bytes(service_id)
            && v[i].alert_type.eq_bytes(alert_type);
        if hit {
            proof {
                assert(v@[i as int]@ == (member_id, service_id@, alert_type@));
                assert(v@.map_values(|k: IndexKey| k@)[i as int] == (member_id, service_id@, alert_type@));
            }
            return Some(i);
        }
        proof {
            let t = (member_id, service_id@, alert_type@);
            assert(v@[i as int]@ != t) by {
                if v@[i as int]@ == t {
                    assert(v@[i as int]@.0 == t.0 && v@[i as int]@.1 == t.1 && v@[i as int]@.2 == t.2);
                }
            }
        }
        i += 1;
    }
    proof {
        let t = (member_id, service_id@, alert_type@);
        let ts = v@.map_values(|k: IndexKey| k@);
        if ts.to_set().contains(t) {
            let j = choose|j: int| 0 <= j < ts.len() && ts[j] == t;
            assert(v@[j]@ == t);
        }
    }
    None
}

impl AlertRegistry {
    /// The records as a map over their primary key.
    pub closed spec fn alerts_map(self) -> Map<AlertKey, AlertData> {
        kv::assoc_map(self.alerts@)
    }

    /// The index entries as the triples they denote, in store order.
    pub closed spec fn index_seq(self) -> Seq<IndexTriple> {
        self.index@.map_values(|k: IndexKey| k@)
    }

    /// The set of indexed triples.
    pub open spec fn index_set(self) -> Set<IndexTriple> {
        self.index_seq().to_set()
    }

    /// Each primary key holds at most one record, whose key fields repeat
    /// the key; each triple is indexed at most once; every live record's
    /// triple is indexed; and no two live records carry the same triple.
    pub closed spec fn wf(self) -> bool {
        &&& kv::distinct_keys(self.alerts@)
        &&& self.index_seq().no_duplicates()
        &&& forall|k: AlertKey| #[trigger] self.alerts_map().contains_key(k) ==> {
            &&& self.alerts_map()[k].monitor_id == k.monitor_id
            &&& self.alerts_map()[k].alert_id == k.alert_id
            &&& self.index_set().contains(triple_of(self.alerts_map()[k]))
        }
        &&& forall|k1: AlertKey, k2: AlertKey|
            #[trigger] self.alerts_map().contains_key(k1) && #[trigger] self.alerts_map().contains_key(k2)
                && k1 != k2 ==> triple_of(self.alerts_map()[k1]) != triple_of(self.alerts_map()[k2])
    }

    /// An empty registry.
    pub fn new() -> (r: AlertRegistry)
        ensures
            r.wf(),
            r.alerts_map() == Map::<AlertKey, AlertData>::empty(),
            r.index_set() == Set::<IndexTriple>::empty(),
    {
        let r = AlertRegistry { alerts: Vec::new(), index: Vec::new() };
        proof {
            assert(r.index_seq() =~= Seq::<IndexTriple>::empty());
            assert(r.index_set() =~= Set::<IndexTriple>::empty());
        }
        r
    }

    /// Whether the monitor has an alert under the number.
    pub fn contains_alert(&self, monitor_id: AccountId, alert_id: u64) -> (r: bool)
        ensures
            r == self.alerts_map().contains_key(AlertKey { monitor_id, alert_id }),
    {
        find_alert(&self.alerts, AlertKey { monitor_id, alert_id }).is_some()
    }

    /// The record of the monitor's alert under the number, when one exists.
    pub fn get_alert(&self, monitor_id: AccountId, alert_id: u64) -> (r: Option<&AlertData>)
        requires
            self.wf(),
        ensures
            ({
                let k = AlertKey { monitor_id, alert_id };
                &&& self.alerts_map().contains_key(k) ==> (r matches Some(v) && *v == self.alerts_map()[k])
                &&& !self.alerts_map().contains_key(k) ==> r is None
            }),
    {
        match find_alert(&self.alerts, AlertKey { monitor_id, alert_id }) {
            Some(i) => {
                proof {
                    kv::lemma_assoc_get(self.alerts@, i as int);
                }
                Some(&self.alerts[i].1)
            },
            None => None,
        }
    }

    /// Whether the triple is indexed.
    pub fn is_indexed(&self, member_id: AccountId, service_id: &ServiceId, alert_type: &AlertType) -> (r:
        bool)
        ensures
            r == self.index_set().contains((member_id, service_id@, alert_type@)),
    {
        find_triple(&self.index, member_id, service_id, alert_type).is_some()
    }

    /// How many entries the index holds.
    pub fn index_len(&self) -> (n: usize)
        ensures
            n == self.index_seq().len(),
    {
        self.index.len()
    }

    /// Writes the record and its triple together: replaces any record under
    /// the same primary key, and appends the triple to the index.
    fn insert_alert(&mut self, record: AlertData) -> (key: AlertKey)
        requires
            old(self).wf(),
            !old(self).index_set().contains(triple_of(record)),
        ensures
            final(self).wf(),
            key == (AlertKey { monitor_id: record.monitor_id, alert_id: record.alert_id }),
            final(self).alerts_map() == old(self).alerts_map().insert(key, record),
            final(self).index_set() == old(self).index_set().insert(triple_of(record)),
    {
        let key = AlertKey { monitor_id: record.monitor_id, alert_id: record.alert_id };
        let ghost m0 = self.alerts_map();
        let ghost set0 = self.index_set();
        let ghost t = triple_of(record);

        let entry = IndexKey {
            member_id: record.member_id,
            service_id: record.service_id.dup(),
            alert_type: record.alert_type.dup(),
        };

        match find_alert(&self.alerts, key) {
            Some(i) => {
                proof {
                    kv::lemma_assoc_remove(self.alerts@, i as int);
                }
                self.alerts.remove(i);
            },
            None => {},
        }
        let ghost m1 = self.alerts_map();
        proof {
            assert(!m1.contains_key(key));
            kv::lemma_assoc_push(self.alerts@, key, record);
            kv::lemma_distinct_push(self.alerts@, key, record);
        }
        self.alerts.push((key, record));
        proof {
            assert(self.alerts_map() =~= m0.insert(key, record));
            kv::lemma_to_set_push(self.index_seq(), entry@);
            kv::lemma_no_dup_push(self.index_seq(), entry@);
        }
        let ghost ts0 = self.index_seq();
        self.index.push(entry);
        proof {
            assert(self.index_seq() =~= ts0.push(entry@));
            assert(entry@ == t);
            assert(self.index_set() =~= set0.insert(t));
            let m2 = self.alerts_map();
            let set2 = self.index_set();
            assert forall|k: AlertKey| #[trigger] m2.contains_key(k) implies {
                &&& m2[k].monitor_id == k.monitor_id
                &&& m2[k].alert_id == k.alert_id
                &&& set2.contains(triple_of(m2[k]))
            } by {
                if k != key {
                    assert(m0.contains_key(k) && m2[k] == m0[k]);
                }
            }
            assert forall|k1: AlertKey, k2: AlertKey|
                #[trigger] m2.contains_key(k1) && #[trigger] m2.contains_key(k2) && k1 != k2
                implies triple_of(m2[k1]) != triple_of(m2[k2]) by {
                if k1 != key && k2 != key {
                    assert(m0.contains_key(k1) && m0.contains_key(k2));
                } else if k1 == key {
                    assert(m0.contains_key(k2) && set0.contains(triple_of(m0[k2])));
                } else {
                    assert(m0.contains_key(k1) && set0.contains(triple_of(m0[k1])));
                }
            }
        }
        key
    }

    /// Removes the record in the given slot together with its triple, and
    /// hands the record back.
    fn remove_alert(&mut self, i: usize) -> (data: AlertData)
        requires
            old(self).wf(),
            i < old(self).alerts@.len(),
        ensures
            final(self).wf(),
            data == old(self).alerts_map()[old(self).alerts@[i as int].0],
            final(self).alerts_map() == old(self).alerts_map().remove(old(self).alerts@[i as int].0),
            final(self).index_set() == old(self).index_set().remove(triple_of(data)),
    {
        let ghost m0 = self.alerts_map();
        let ghost set0 = self.index_set();
        let ghost k = self.alerts@[i as int].0;
        proof {
            kv::lemma_assoc_get(self.alerts@, i as int);
            kv::lemma_assoc_remove(self.alerts@, i as int);
        }
        let (_key, data) = self.alerts.remove(i);
        let ghost t = triple_of(data);
        let pos = find_triple(&self.index, data.member_id, &data.service_id, &data.alert_type);
        match pos {
            Some(j) => {
                proof {
                    kv::lemma_to_set_remove(self.index_seq(), j as int);
                    assert(self.index_seq()[j as int] == t);
                }
                let ghost ts0 = self.index_seq();
                self.index.remove(j);
                proof {
                    assert(self.index_seq() =~= ts0.remove(j as int));
                }
            },
            None => {
                proof {
                    assert(set0.contains(t));
                    assert(false);
                }
            },
        }
        proof {
            let m2 = self.alerts_map();
            let set2 = self.index_set();
            assert(m2 == m0.remove(k));
            assert(set2 == set0.remove(t));
            assert forall|kk: AlertKey| #[trigger] m2.contains_key(kk) implies {
                &&& m2[kk].monitor_id == kk.monitor_id
                &&& m2[kk].alert_id == kk.alert_id
                &&& set2.contains(triple_of(m2[kk]))
            } by {
                assert(m0.contains_key(kk) && m2[kk] == m0[kk]);
                assert(kk != k);
                assert(m0.contains_key(k) && m0[k] == data);
                assert(triple_of(m0[kk]) != t);
            }
            assert forall|k1: AlertKey, k2: AlertKey|
                #[trigger] m2.contains_key(k1) && #[trigger] m2.contains_key(k2) && k1 != k2
                implies triple_of(m2[k1]) != triple_of(m2[k2]) by {
                assert(m0.contains_key(k1) && m0.contains_key(k2));
            }
        }
        data
    }

    /// A monitor reports a fault of an active member's use of an active
    /// service; refused while the triple is already indexed. A record the
    /// same monitor filed earlier under the same alert number is replaced.
    pub fn register_alert(
        &mut self,
        roles: &RoleStore,
        members: &MemberStore,
        services: &ServiceStore,
        caller: AccountId,
        alert_id: u64,
        member_id: AccountId,
        service_id: ServiceId,
        domain_id: DomainId,
        alert_type: AlertType,
    ) -> (r: Result<Event, Error>)
        requires
            old(self).wf(),
            members.wf(),
            services.wf(),
        ensures
            final(self).wf(),
            ({
                let pre = *old(self);
                let t = (member_id, service_id@, alert_type@);
                if !roles@.monitors.contains(caller) {
                    r == Err::<Event, Error>(Error::NotAMonitor) && *final(self) == pre
                } else if !members@.contains_key(member_id) {
                    r == Err::<Event, Error>(Error::MemberNotFound) && *final(self) == pre
                } else if !(members@[member_id].status is Active) {
                    r == Err::<Event, Error>(Error::MemberNotActive) && *final(self) == pre
                } else if !services@.contains_key(service_id@) {
                    r == Err::<Event, Error>(Error::ServiceNotFound) && *final(self) == pre
                } else if !(services@[service_id@].status is Active) {
                    r == Err::<Event, Error>(Error::ServiceNotActive) && *final(self) == pre
                } else if pre.index_set().contains(t) {
                    r == Err::<Event, Error>(Error::MemberServiceAlertExists) && *final(self) == pre
                } else {
                    &&& r matches Ok(ev) && ev matches Event::AlertRegistered(m, s, d, a)
                        && m == member_id && s@ == service_id@ && d@ == domain_id@ && a@ == alert_type@
                    &&& final(self).alerts_map() == pre.alerts_map().insert(
                        AlertKey { monitor_id: caller, alert_id },
                        AlertData { monitor_id: caller, alert_id, member_id, domain_id, service_id, alert_type },
                    )
                    &&& final(self).index_set() == pre.index_set().insert(t)
                }
            }),
    {
        if !roles.is_monitor(caller) {
            return Err(Error::NotAMonitor);
        }
        let member = match members.get_member(member_id) {
            None => { return Err(Error::MemberNotFound); },
            Some(m) => m,
        };
        if member.status != crate::member::MemberStatus::Active {
            return Err(Error::MemberNotActive);
        }
        match services.get_service(&service_id) {
            None => { return Err(Error::ServiceNotFound); },
            Some(s) => {
                if s.status != crate::service::ServiceStatus::Active {
                    return Err(Error::ServiceNotActive);
                }
            },
        }
        if self.is_indexed(member_id, &service_id, &alert_type) {
            return Err(Error::MemberServiceAlertExists);
        }
        let service_id_out = service_id.dup();
        let domain_id_out = domain_id.dup();
        let alert_type_out = alert_type.dup();
        let record = AlertData {
            monitor_id: caller,
            alert_id,
            member_id,
            domain_id,
            service_id,
            alert_type,
        };
        self.insert_alert(record);
        Ok(Event::AlertRegistered(member_id, service_id_out, domain_id_out, alert_type_out))
    }

    /// The monitor behind the call clears its own alert. Only the original
    /// monitor or a curator may clear an alert; since the lookup key is
    /// built from the caller, any record found is the caller's own and the
    /// requirement holds by construction. The index entry removed is the
    /// triple the stored record carries, keyed by the record's member, so
    /// store and index stay in agreement whoever acts.
    pub fn clear_alert(&mut self, roles: &RoleStore, caller: AccountId, alert_id: u64) -> (r: Result<
        Event,
        Error,
    >)
        requires
            old(self).wf(),
        ensures
            final(self).wf(),
            ({
                let pre = *old(self);
                let k = AlertKey { monitor_id: caller, alert_id };
                if !pre.alerts_map().contains_key(k) {
                    r == Err::<Event, Error>(Error::AlertNotFound) && *final(self) == pre
                } else {
                    let a = pre.alerts_map()[k];
                    &&& r == Ok::<Event, Error>(Event::AlertCleared(caller, a.service_id, a.domain_id, a.alert_type))
                    &&& final(self).alerts_map() == pre.alerts_map().remove(k)
                    &&& final(self).index_set() == pre.index_set().remove(triple_of(a))
                }
            }),
    {
        let key = AlertKey { monitor_id: caller, alert_id };
        match find_alert(&self.alerts, key) {
            None => Err(Error::AlertNotFound),
            Some(i) => {
                proof {
                    kv::lemma_assoc_get(self.alerts@, i as int);
                }
                if !(self.alerts[i].1.monitor_id == caller || roles.is_curator(caller)) {
                    return Err(Error::BadOriginOrNotACurator);
                }
                let data = self.remove_alert(i);
                Ok(Event::AlertCleared(caller, data.service_id, data.domain_id, data.alert_type))
            },
        }
    }

    /// A curator clears any monitor's alert; the same removal as
    /// `clear_alert`, keyed by the stored record's member.
    pub fn clear_monitor_alert(
        &mut self,
        roles: &RoleStore,
        caller: AccountId,
        monitor_id: AccountId,
        alert_id: u64,
    ) -> (r: Result<Event, Error>)
        requires
            old(self).wf(),
        ensures
            final(self).wf(),
            ({
                let pre = *old(self);
                let k = AlertKey { monitor_id, alert_id };
                if !roles@.curators.contains(caller) {
                    r == Err::<Event, Error>(Error::NotACurator) && *final(self) == pre
                } else if !pre.alerts_map().contains_key(k) {
                    r == Err::<Event, Error>(Error::AlertNotFound) && *final(self) == pre
                } else {
                    let a = pre.alerts_map()[k];
                    &&& r == Ok::<Event, Error>(Event::AlertCleared(caller, a.service_id, a.domain_id, a.alert_type))
                    &&& final(self).alerts_map() == pre.alerts_map().remove(k)
                    &&& final(self).index_set() == pre.index_set().remove(triple_of(a))
                }
            }),
    {
        if !roles.is_curator(caller) {
            return Err(Error::NotACurator);
        }
        let key = AlertKey { monitor_id, alert_id };
        match find_alert(&self.alerts, key) {
            None => Err(Error::AlertNotFound),
            Some(i) => {
                let data = self.remove_alert(i);
                Ok(Event::AlertCleared(caller, data.service_id, data.domain_id, data.alert_type))
            },
        }
    }

    /// Clears the index and repopulates it from the store: afterwards the
    /// index holds exactly one entry per live alert's triple, whatever it
    /// held before. The store itself is untouched, and the rebuild is
    /// idempotent.
    pub fn rebuild_index(&mut self) -> (ev: Event)
        requires
            old(self).wf(),
        ensures
            final(self).wf(),
            ev == Event::AlertIndexGenerated,
            final(self).alerts_map() == old(self).alerts_map(),
            final(self).index_set() == live_triples(old(self).alerts_map()),
            final(self).index_seq().no_duplicates(),
    {
        let ghost a0 = self.alerts@;
        let ghost m0 = self.alerts_map();
        self.index.clear();
        proof {
            assert(self.index_seq() =~= Seq::<IndexTriple>::empty());
        }
        let mut i: usize = 0;
        while i < self.alerts.len()
            invariant
                i <= self.alerts@.len(),
                self.alerts@ == a0,
                self.index_seq() =~= a0.take(i as int).map_values(|p: (AlertKey, AlertData)| triple_of(p.1)),
            decreases self.alerts@.len() - i,
        {
            let entry = IndexKey {
                member_id: self.alerts[i].1.member_id,
                service_id: self.alerts[i].1.service_id.dup(),
                alert_type: self.alerts[i].1.alert_type.dup(),
            };
            let ghost ts0 = self.index_seq();
            self.index.push(entry);
            proof {
                assert(self.index_seq() =~= ts0.push(entry@));
                assert(entry@ == triple_of(a0[i as int].1));
                assert(a0.take(i + 1).map_values(|p: (AlertKey, AlertData)| triple_of(p.1))
                    =~= a0.take(i as int).map_values(|p: (AlertKey, AlertData)| triple_of(p.1)).push(
                    triple_of(a0[i as int].1),
                ));
            }
            i += 1;
        }
        proof {
            assert(a0.take(a0.len() as int) =~= a0);
            let ts = self.index_seq();
            assert(ts =~= a0.map_values(|p: (AlertKey, AlertData)| triple_of(p.1)));
            assert forall|j1: int, j2: int| 0 <= j1 < ts.len() && 0 <= j2 < ts.len() && j1 != j2
                implies ts[j1] != ts[j2] by {
                kv::lemma_assoc_get(a0, j1);
                kv::lemma_assoc_get(a0, j2);
                assert(a0[j1].0 != a0[j2].0);
                assert(ts[j1] == triple_of(m0[a0[j1].0]));
                assert(ts[j2] == triple_of(m0[a0[j2].0]));
            }
            assert(ts.to_set() =~= live_triples(m0)) by {
                assert forall|t: IndexTriple| #[trigger] ts.to_set().contains(t) implies live_triples(
                    m0,
                ).contains(t) by {
                    let j = choose|j: int| 0 <= j < ts.len() && ts[j] == t;
                    kv::lemma_assoc_get(a0, j);
                    assert(m0.contains_key(a0[j].0) && triple_of(m0[a0[j].0]) == t);
                }
                assert forall|t: IndexTriple| #[trigger] live_triples(m0).contains(t) implies ts.to_set().contains(t) by {
                    let k = choose|k: AlertKey| #[trigger] m0.contains_key(k) && triple_of(m0[k]) == t;
                    kv::lemma_assoc_contains(a0, k);
                    let j = choose|j: int| 0 <= j < a0.len() && (#[trigger] a0[j]).0 == k;
                    kv::lemma_assoc_get(a0, j);
                    assert(ts[j] == t);
                }
            }
            assert forall|k: AlertKey| #[trigger] self.alerts_map().contains_key(k) implies {
                &&& self.alerts_map()[k].monitor_id == k.monitor_id
                &&& self.alerts_map()[k].alert_id == k.alert_id
                &&& self.index_set().contains(triple_of(self.alerts_map()[k]))
            } by {
                assert(live_triples(m0).contains(triple_of(m0[k])));
            }
        }
        Event::AlertIndexGenerated
    }

    /// The epoch-boundary hook: the host calls it once per boundary, and it
    /// rebuilds the index from the store.
    pub fn on_epoch_start(&mut self) -> (ev: Event)
        requires
            old(self).wf(),
        ensures
            final(self).wf(),
            ev == Event::AlertIndexGenerated,
            final(self).alerts_map() == old(self).alerts_map(),
            final(self).index_set() == live_triples(old(self).alerts_map()),
    {
        self.rebuild_index()
    }
}

/// A triple carried by a live alert is always indexed, so a second
/// registration of the same (member, service, alert type) is refused while
/// the first alert lives: `register_alert` answers an indexed triple with
/// `MemberServiceAlertExists`.
pub proof fn lemma_live_triple_indexed(r: AlertRegistry, k: AlertKey)
    requires
        r.wf(),
        r.alerts_map().contains_key(k),
    ensures
        r.index_set().contains(triple_of(r.alerts_map()[k])),
{
}

} // verus!
