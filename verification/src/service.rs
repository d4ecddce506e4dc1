//! The service store.
//!
//! A service record is created by a curator and never removed; its status
//! walks the same state machine as a member's, but every mutation is
//! curator-gated — there is no self-service operation. Each operation is a
//! single atomic read-check-write: when a guard fails, the store is left
//! unchanged and the corresponding error is returned; on success exactly one
//! notification is returned.

use vstd::prelude::*;

use crate::ids::AccountId;
use crate::ids::ChainId;
use crate::ids::ServiceId;
use crate::kv;
use crate::member::MembershipLevel;
use crate::roles::RoleStore;

verus! {

/// What kind of endpoint a service is.
#[derive(Clone, Copy, Debug, PartialEq, Eq, Structural)]
pub enum ServiceType {
    Unset,
    RPC,
    BOOT,
}

/// Lifecycle status of a service record.
#[derive(Clone, Copy, Debug, PartialEq, Eq, Structural)]
pub enum ServiceStatus {
    Unset,
    Locked,
    Active,
    Chilled,
    Deleted,
}

impl Default for ServiceType {
    fn default() -> (r: ServiceType)
        ensures
            r == ServiceType::RPC,
    {
        ServiceType::RPC
    }
}

impl Default for ServiceStatus {
    fn default() -> (r: ServiceStatus)
        ensures
            r == ServiceStatus::Active,
    {
        ServiceStatus::Active
    }
}

/// The attributes of a service; the service identifier is the store key.
#[derive(Debug, PartialEq, Eq)]
pub struct ServiceData {
    pub chain_id: ChainId,
    pub service_type: ServiceType,
    pub level: MembershipLevel,
    pub status: ServiceStatus,
}

impl Default for ServiceData {
    fn default() -> (r: ServiceData)
        ensures
            r.chain_id@ == Seq::<u8>::empty(),
            r.service_type == ServiceType::Unset,
            r.level == MembershipLevel::Unset,
            r.status == ServiceStatus::Unset,
    {
        ServiceData {
            chain_id: Default::default(),
            service_type: ServiceType::Unset,
            level: MembershipLevel::Unset,
            status: ServiceStatus::Unset,
        }
    }
}

impl ServiceData {
    /// The record with its status replaced.
    pub open spec fn with_status(self, status: ServiceStatus) -> ServiceData {
        ServiceData { chain_id: self.chain_id, service_type: self.service_type, level: self.level, status }
    }

    /// The record with its level replaced.
    pub open spec fn with_level(self, level: MembershipLevel) -> ServiceData {
        ServiceData { chain_id: self.chain_id, service_type: self.service_type, level, status: self.status }
    }
}

/// Why a service operation was refused.
#[derive(Clone, Copy, Debug, PartialEq, Eq, Structural)]
pub enum Error {
    ServiceAlreadyExists,
    ServiceNotFound,
    InvalidStatusTransition,
    NotACurator,
}

/// The notification a successful service operation returns.
#[derive(Debug, PartialEq, Eq)]
pub enum Event {
    ServiceRegistered(ServiceId, MembershipLevel),
    ServiceStatusUpdated(ServiceId, ServiceStatus),
    ServiceMembershipLevelUpdated(ServiceId, MembershipLevel),
    ServiceDeleted(ServiceId),
}

/// Service records keyed by service identifier.
pub struct ServiceStore {
    entries: Vec<(ServiceId, ServiceData)>,
}

impl ServiceStore {
    /// The entries with their keys taken as byte sequences.
    pub closed spec fn entries_view(self) -> Seq<(Seq<u8>, ServiceData)> {
        self.entries@.map_values(|p: (ServiceId, ServiceData)| (p.0@, p.1))
    }

    /// Each service identifier holds at most one record.
    pub closed spec fn wf(self) -> bool {
        kv::distinct_keys(self.entries_view())
    }
}

impl View for ServiceStore {
    type V = Map<Seq<u8>, ServiceData>;

    closed spec fn view(&self) -> Map<Seq<u8>, ServiceData> {
        kv::assoc_map(self.entries_view())
    }
}

impl ServiceStore {
    /// An empty store.
    pub fn new() -> (r: ServiceStore)
        ensures
            r.wf(),
            r@ == Map::<Seq<u8>, ServiceData>::empty(),
    {
        let r = ServiceStore { entries: Vec::new() };
        proof {
            assert(r.entries_view() =~= Seq::<(Seq<u8>, ServiceData)>::empty());
        }
        r
    }

    /// The slot holding the identifier, when one does.
    fn position_of(&self, id: &ServiceId) -> (r: Option<usize>)
        ensures
            match r {
                Some(i) => i < self.entries_view().len() && self.entries_view()[i as int].0 == id@
                    && self@.contains_key(id@),
                None => !self@.contains_key(id@),
            },
    {
        let mut i: usize = 0;
        while i < self.entries.len()
            invariant
                i <= self.entries@.len(),
                forall|j: int| 0 <= j < i ==> (#[trigger] self.entries@[j]).0@ != id@,
            decreases self.entries@.len() - i,
        {
            if self.entries[i].0.eq_bytes(id) {
                proof {
                    assert(self.entries_view()[i as int].0 == id@);
                    kv::lemma_assoc_contains(self.entries_view(), id@);
                }
                return Some(i);
            }
            i += 1;
        }
        proof {
            kv::lemma_assoc_contains(self.entries_view(), id@);
            if exists|j: int| 0 <= j < self.entries_view().len()
                && (#[trigger] self.entries_view()[j]).0 == id@ {
                let j = choose|j: int| 0 <= j < self.entries_view().len()
                    && (#[trigger] self.entries_view()[j]).0 == id@;
                assert(self.entries@[j].0@ == id@);
            }
        }
        None
    }

    /// Whether the identifier has a record.
    pub fn contains_service(&self, id: &ServiceId) -> (r: bool)
        ensures
            r == self@.contains_key(id@),
    {
        self.position_of(id).is_some()
    }

    /// The record of the identifier, when one exists.
    pub fn get_service(&self, id: &ServiceId) -> (r: Option<&ServiceData>)
        requires
            self.wf(),
        ensures
            self@.contains_key(id@) ==> (r matches Some(v) && *v == self@[id@]),
            !self@.contains_key(id@) ==> r is None,
    {
        match self.position_of(id) {
            Some(i) => {
                proof {
                    kv::lemma_assoc_get(self.entries_view(), i as int);
                    assert(self.entries_view()[i as int].1 == self.entries@[i as int].1);
                }
                Some(&self.entries[i].1)
            },
            None => None,
        }
    }

    /// A curator creates the record, with the attributes as given.
    pub fn register_service(
        &mut self,
        roles: &RoleStore,
        caller: AccountId,
        id: ServiceId,
        chain_id: ChainId,
        service_type: ServiceType,
        level: MembershipLevel,
        status: ServiceStatus,
    ) -> (r: Result<Event, Error>)
        requires
            old(self).wf(),
        ensures
            final(self).wf(),
            ({
                let pre = old(self)@;
                if pre.contains_key(id@) {
                    r == Err::<Event, Error>(Error::ServiceAlreadyExists) && *final(self) == *old(self)
                } else if !roles@.curators.contains(caller) {
                    r == Err::<Event, Error>(Error::NotACurator) && *final(self) == *old(self)
                } else {
                    r == Ok::<Event, Error>(Event::ServiceRegistered(id, level))
                        && final(self)@ == pre.insert(
                        id@,
                        ServiceData { chain_id, service_type, level, status },
                    )
                }
            }),
    {
        if self.position_of(&id).is_some() {
            return Err(Error::ServiceAlreadyExists);
        }
        if !roles.is_curator(caller) {
            return Err(Error::NotACurator);
        }
        let ghost ev0 = self.entries_view();
        let key = id.dup();
        let data = ServiceData { chain_id, service_type, level, status };
        proof {
            kv::lemma_assoc_push(ev0, key@, data);
            kv::lemma_distinct_push(ev0, key@, data);
        }
        self.entries.push((key, data));
        proof {
            assert(self.entries_view() =~= ev0.push((id@, data)));
        }
        Ok(Event::ServiceRegistered(id, level))
    }

    /// Overwrites the status of the record in the given slot.
    fn set_status(&mut self, i: usize, status: ServiceStatus)
        requires
            old(self).wf(),
            i < old(self).entries_view().len(),
        ensures
            final(self).wf(),
            final(self)@ == old(self)@.insert(
                old(self).entries_view()[i as int].0,
                old(self).entries_view()[i as int].1.with_status(status),
            ),
    {
        let ghost ev0 = self.entries_view();
        let ghost k = ev0[i as int].0;
        proof {
            kv::lemma_assoc_remove(ev0, i as int);
        }
        let (key, mut data) = self.entries.remove(i);
        data.status = status;
        proof {
            assert(self.entries_view() =~= ev0.remove(i as int));
            assert(!kv::assoc_map(ev0.remove(i as int)).contains_key(k));
            kv::lemma_assoc_push(ev0.remove(i as int), k, data);
            kv::lemma_distinct_push(ev0.remove(i as int), k, data);
        }
        self.entries.push((key, data));
        proof {
            assert(self.entries_view() =~= ev0.remove(i as int).push((k, data)));
            assert(kv::assoc_map(ev0).remove(k).insert(k, data) =~= kv::assoc_map(ev0).insert(k, data));
        }
    }

    /// Overwrites the level of the record in the given slot.
    fn set_level(&mut self, i: usize, level: MembershipLevel)
        requires
            old(self).wf(),
            i < old(self).entries_view().len(),
        ensures
            final(self).wf(),
            final(self)@ == old(self)@.insert(
                old(self).entries_view()[i as int].0,
                old(self).entries_view()[i as int].1.with_level(level),
            ),
    {
        let ghost ev0 = self.entries_view();
        let ghost k = ev0[i as int].0;
        proof {
            kv::lemma_assoc_remove(ev0, i as int);
        }
        let (key, mut data) = self.entries.remove(i);
        data.level = level;
        proof {
            assert(self.entries_view() =~= ev0.remove(i as int));
            assert(!kv::assoc_map(ev0.remove(i as int)).contains_key(k));
            kv::lemma_assoc_push(ev0.remove(i as int), k, data);
            kv::lemma_distinct_push(ev0.remove(i as int), k, data);
        }
        self.entries.push((key, data));
        proof {
            assert(self.entries_view() =~= ev0.remove(i as int).push((k, data)));
            assert(kv::assoc_map(ev0).remove(k).insert(k, data) =~= kv::assoc_map(ev0).insert(k, data));
        }
    }

    /// A curator locks the service; refused once deleted.
    pub fn lock_service(&mut self, roles: &RoleStore, caller: AccountId, service_id: ServiceId) -> (r:
        Result<Event, Error>)
        requires
            old(self).wf(),
        ensures
            final(self).wf(),
            ({
                let pre = old(self)@;
                if !roles@.curators.contains(caller) {
                    r == Err::<Event, Error>(Error::NotACurator) && *final(self) == *old(self)
                } else if !pre.contains_key(service_id@) {
                    r == Err::<Event, Error>(Error::ServiceNotFound) && *final(self) == *old(self)
                } else if pre[service_id@].status is Deleted {
                    r == Err::<Event, Error>(Error::InvalidStatusTransition) && *final(self) == *old(self)
                } else {
                    r == Ok::<Event, Error>(Event::ServiceStatusUpdated(service_id, ServiceStatus::Locked))
                        && final(self)@ == pre.insert(
                        service_id@,
                        pre[service_id@].with_status(ServiceStatus::Locked),
                    )
                }
            }),
    {
        if !roles.is_curator(caller) {
            return Err(Error::NotACurator);
        }
        match self.position_of(&service_id) {
            None => Err(Error::ServiceNotFound),
            Some(i) => {
                proof {
                    kv::lemma_assoc_get(self.entries_view(), i as int);
                    assert(self.entries_view()[i as int].1 == self.entries@[i as int].1);
                }
                if self.entries[i].1.status == ServiceStatus::Deleted {
                    Err(Error::InvalidStatusTransition)
                } else {
                    self.set_status(i, ServiceStatus::Locked);
                    Ok(Event::ServiceStatusUpdated(service_id, ServiceStatus::Locked))
                }
            },
        }
    }

    /// A curator unlocks the service; only allowed from locked.
    pub fn unlock_service(&mut self, roles: &RoleStore, caller: AccountId, service_id: ServiceId) -> (r:
        Result<Event, Error>)
        requires
            old(self).wf(),
        ensures
            final(self).wf(),
            ({
                let pre = old(self)@;
                if !roles@.curators.contains(caller) {
                    r == Err::<Event, Error>(Error::NotACurator) && *final(self) == *old(self)
                } else if !pre.contains_key(service_id@) {
                    r == Err::<Event, Error>(Error::ServiceNotFound) && *final(self) == *old(self)
                } else if !(pre[service_id@].status is Locked) {
                    r == Err::<Event, Error>(Error::InvalidStatusTransition) && *final(self) == *old(self)
                } else {
                    r == Ok::<Event, Error>(Event::ServiceStatusUpdated(service_id, ServiceStatus::Active))
                        && final(self)@ == pre.insert(
                        service_id@,
                        pre[service_id@].with_status(ServiceStatus::Active),
                    )
                }
            }),
    {
        if !roles.is_curator(caller) {
            return Err(Error::NotACurator);
        }
        match self.position_of(&service_id) {
            None => Err(Error::ServiceNotFound),
            Some(i) => {
                proof {
                    kv::lemma_assoc_get(self.entries_view(), i as int);
                    assert(self.entries_view()[i as int].1 == self.entries@[i as int].1);
                }
                if self.entries[i].1.status != ServiceStatus::Locked {
                    Err(Error::InvalidStatusTransition)
                } else {
                    self.set_status(i, ServiceStatus::Active);
                    Ok(Event::ServiceStatusUpdated(service_id, ServiceStatus::Active))
                }
            },
        }
    }

    /// A curator deletes the service; allowed from any status.
    pub fn delete_service(&mut self, roles: &RoleStore, caller: AccountId, service_id: ServiceId) -> (r:
        Result<Event, Error>)
        requires
            old(self).wf(),
        ensures
            final(self).wf(),
            ({
                let pre = old(self)@;
                if !roles@.curators.contains(caller) {
                    r == Err::<Event, Error>(Error::NotACurator) && *final(self) == *old(self)
                } else if !pre.contains_key(service_id@) {
                    r == Err::<Event, Error>(Error::ServiceNotFound) && *final(self) == *old(self)
                } else {
                    r == Ok::<Event, Error>(Event::ServiceDeleted(service_id))
                        && final(self)@ == pre.insert(
                        service_id@,
                        pre[service_id@].with_status(ServiceStatus::Deleted),
                    )
                }
            }),
    {
        if !roles.is_curator(caller) {
            return Err(Error::NotACurator);
        }
        match self.position_of(&service_id) {
            None => Err(Error::ServiceNotFound),
            Some(i) => {
                proof {
                    kv::lemma_assoc_get(self.entries_view(), i as int);
                }
                self.set_status(i, ServiceStatus::Deleted);
                Ok(Event::ServiceDeleted(service_id))
            },
        }
    }

    /// A curator undeletes the service; only allowed from deleted. The
    /// target status is deleted again, so a successful call reports the
    /// transition but leaves the record as it was.
    pub fn undelete_service(&mut self, roles: &RoleStore, caller: AccountId, service_id: ServiceId) -> (r:
        Result<Event, Error>)
        requires
            old(self).wf(),
        ensures
            final(self).wf(),
            ({
                let pre = old(self)@;
                if !roles@.curators.contains(caller) {
                    r == Err::<Event, Error>(Error::NotACurator) && *final(self) == *old(self)
                } else if !pre.contains_key(service_id@) {
                    r == Err::<Event, Error>(Error::ServiceNotFound) && *final(self) == *old(self)
                } else if !(pre[service_id@].status is Deleted) {
                    r == Err::<Event, Error>(Error::InvalidStatusTransition) && *final(self) == *old(self)
                } else {
                    r == Ok::<Event, Error>(Event::ServiceStatusUpdated(service_id, ServiceStatus::Deleted))
                        && final(self)@ == pre.insert(
                        service_id@,
                        pre[service_id@].with_status(ServiceStatus::Deleted),
                    )
                }
            }),
    {
        if !roles.is_curator(caller) {
            return Err(Error::NotACurator);
        }
        match self.position_of(&service_id) {
            None => Err(Error::ServiceNotFound),
            Some(i) => {
                proof {
                    kv::lemma_assoc_get(self.entries_view(), i as int);
                    assert(self.entries_view()[i as int].1 == self.entries@[i as int].1);
                }
                if self.entries[i].1.status != ServiceStatus::Deleted {
                    Err(Error::InvalidStatusTransition)
                } else {
                    self.set_status(i, ServiceStatus::Deleted);
                    Ok(Event::ServiceStatusUpdated(service_id, ServiceStatus::Deleted))
                }
            },
        }
    }

    /// A curator overwrites the service's required tier; allowed from any
    /// status.
    pub fn update_service_level(
        &mut self,
        roles: &RoleStore,
        caller: AccountId,
        service_id: ServiceId,
        level: MembershipLevel,
    ) -> (r: Result<Event, Error>)
        requires
            old(self).wf(),
        ensures
            final(self).wf(),
            ({
                let pre = old(self)@;
                if !roles@.curators.contains(caller) {
                    r == Err::<Event, Error>(Error::NotACurator) && *final(self) == *old(self)
                } else if !pre.contains_key(service_id@) {
                    r == Err::<Event, Error>(Error::ServiceNotFound) && *final(self) == *old(self)
                } else {
                    r == Ok::<Event, Error>(Event::ServiceMembershipLevelUpdated(service_id, level))
                        && final(self)@ == pre.insert(service_id@, pre[service_id@].with_level(level))
                }
            }),
    {
        if !roles.is_curator(caller) {
            return Err(Error::NotACurator);
        }
        match self.position_of(&service_id) {
            None => Err(Error::ServiceNotFound),
            Some(i) => {
                proof {
                    kv::lemma_assoc_get(self.entries_view(), i as int);
                }
                self.set_level(i, level);
                Ok(Event::ServiceMembershipLevelUpdated(service_id, level))
            },
        }
    }
}

} // verus!
