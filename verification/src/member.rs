//! The member store.
//!
//! A member record is created by self-registration and never removed; its
//! status walks a small state machine. The member itself may chill and
//! unchill; curators lock, unlock, delete, undelete and set the membership
//! level. Every mutating operation applies a single atomic read-check-write:
//! when a guard fails, the store is left unchanged and the corresponding
//! error is returned; on success exactly one notification is returned.

use vstd::prelude::*;
use vstd::pervasive::VecAdditionalExecFns;

use crate::ids::AccountId;
use crate::kv;
use crate::roles::RoleStore;

verus! {

/// Lifecycle status of a member record.
#[derive(Clone, Copy, Debug, PartialEq, Eq, Structural)]
pub enum MemberStatus {
    Locked,
    Active,
    Chilled,
    Deleted,
}

/// Ordinal membership tier of a member.
#[derive(Clone, Copy, Debug, PartialEq, Eq, Structural)]
pub enum MembershipLevel {
    Unset,
    One,
    Two,
    Three,
    Four,
    Five,
    Six,
}

impl Default for MemberStatus {
    fn default() -> (r: MemberStatus)
        ensures
            r == MemberStatus::Active,
    {
        MemberStatus::Active
    }
}

impl Default for MembershipLevel {
    fn default() -> (r: MembershipLevel)
        ensures
            r == MembershipLevel::Unset,
    {
        MembershipLevel::Unset
    }
}

/// The attributes of a member; the account identifier is the store key.
#[derive(Clone, Copy, Debug, PartialEq, Eq, Structural)]
pub struct MemberData {
    pub status: MemberStatus,
    pub level: MembershipLevel,
}

impl Default for MemberData {
    fn default() -> (r: MemberData)
        ensures
            r == (MemberData { status: MemberStatus::Active, level: MembershipLevel::Unset }),
    {
        MemberData { status: MemberStatus::Active, level: MembershipLevel::Unset }
    }
}

impl MemberData {
    /// The record with its status replaced.
    pub open spec fn with_status(self, status: MemberStatus) -> MemberData {
        MemberData { status, level: self.level }
    }

    /// The record with its level replaced.
    pub open spec fn with_level(self, level: MembershipLevel) -> MemberData {
        MemberData { status: self.status, level }
    }
}

/// Why a member operation was refused.
#[derive(Clone, Copy, Debug, PartialEq, Eq, Structural)]
pub enum Error {
    MemberAlreadyExists,
    MemberNotFound,
    InvalidStatusTransition,
    NotACurator,
}

/// The notification a successful member operation returns.
#[derive(Clone, Copy, Debug, PartialEq, Eq, Structural)]
pub enum Event {
    MemberRegistered(AccountId),
    MemberStatusUpdated(AccountId, MemberStatus, MemberStatus),
    MembershipLevelUpdated(AccountId, MembershipLevel, MembershipLevel),
}

/// Member records keyed by account identifier.
pub struct MemberStore {
    entries: Vec<(AccountId, MemberData)>,
}

impl View for MemberStore {
    type V = Map<AccountId, MemberData>;

    closed spec fn view(&self) -> Map<AccountId, MemberData> {
        kv::assoc_map(self.entries@)
    }
}

impl MemberStore {
    /// Each account holds at most one record.
    pub closed spec fn wf(self) -> bool {
        kv::distinct_keys(self.entries@)
    }

    /// An empty store.
    pub fn new() -> (r: MemberStore)
        ensures
            r.wf(),
            r@ == Map::<AccountId, MemberData>::empty(),
    {
        MemberStore { entries: Vec::new() }
    }

    /// The slot holding the account, when one does.
    fn position_of(&self, id: AccountId) -> (r: Option<usize>)
        ensures
            match r {
                Some(i) => i < self.entries@.len() && self.entries@[i as int].0 == id
                    && self@.contains_key(id),
                None => !self@.contains_key(id),
            },
    {
        let mut i: usize = 0;
        while i < self.entries.len()
            invariant
                i <= self.entries@.len(),
                forall|j: int| 0 <= j < i ==> (#[trigger] self.entries@[j]).0 != id,
            decreases self.entries@.len() - i,
        {
            if self.entries[i].0 == id {
                proof {
                    kv::lemma_assoc_contains(self.entries@, id);
                }
                return Some(i);
            }
            i += 1;
        }
        proof {
            kv::lemma_assoc_contains(self.entries@, id);
        }
        None
    }

    /// Whether the account has a record.
    pub fn contains_member(&self, id: AccountId) -> (r: bool)
        ensures
            r == self@.contains_key(id),
    {
        self.position_of(id).is_some()
    }

    /// The record of the account, when one exists.
    pub fn get_member(&self, id: AccountId) -> (r: Option<MemberData>)
        requires
            self.wf(),
        ensures
            self@.contains_key(id) ==> r == Some(self@[id]),
            !self@.contains_key(id) ==> r is None,
    {
        match self.position_of(id) {
            Some(i) => {
                proof {
                    kv::lemma_assoc_get(self.entries@, i as int);
                }
                Some(self.entries[i].1)
            },
            None => None,
        }
    }

    /// Creates the caller's record, locked and without a tier.
    pub fn register_member(&mut self, caller: AccountId) -> (r: Result<Event, Error>)
        requires
            old(self).wf(),
        ensures
            final(self).wf(),
            old(self)@.contains_key(caller) ==> r == Err::<Event, Error>(Error::MemberAlreadyExists)
                && *final(self) == *old(self),
            !old(self)@.contains_key(caller) ==> {
                &&& r == Ok::<Event, Error>(Event::MemberRegistered(caller))
                &&& final(self)@ == old(self)@.insert(
                    caller,
                    MemberData { status: MemberStatus::Locked, level: MembershipLevel::Unset },
                )
            },
    {
        match self.position_of(caller) {
            Some(_) => Err(Error::MemberAlreadyExists),
            None => {
                let data = MemberData { status: MemberStatus::Locked, level: MembershipLevel::Unset };
                proof {
                    kv::lemma_assoc_push(self.entries@, caller, data);
                    kv::lemma_distinct_push(self.entries@, caller, data);
                }
                self.entries.push((caller, data));
                Ok(Event::MemberRegistered(caller))
            },
        }
    }

    /// Overwrites the record in the given slot with the given one.
    fn set_record(&mut self, i: usize, data: MemberData)
        requires
            old(self).wf(),
            i < old(self).entries@.len(),
        ensures
            final(self).wf(),
            final(self)@ == old(self)@.insert(old(self).entries@[i as int].0, data),
    {
        proof {
            kv::lemma_assoc_update(self.entries@, i as int, data);
        }
        let id = self.entries[i].0;
        self.entries.set(i, (id, data));
    }

    /// The member chills itself; refused while deleted or locked.
    pub fn chill_member(&mut self, caller: AccountId) -> (r: Result<Event, Error>)
        requires
            old(self).wf(),
        ensures
            final(self).wf(),
            ({
                let pre = old(self)@;
                if !pre.contains_key(caller) {
                    r == Err::<Event, Error>(Error::MemberNotFound) && *final(self) == *old(self)
                } else if pre[caller].status is Deleted || pre[caller].status is Locked {
                    r == Err::<Event, Error>(Error::InvalidStatusTransition) && *final(self) == *old(self)
                } else {
                    r == Ok::<Event, Error>(Event::MemberStatusUpdated(
                        caller,
                        pre[caller].status,
                        MemberStatus::Chilled,
                    )) && final(self)@ == pre.insert(
                        caller,
                        pre[caller].with_status(MemberStatus::Chilled),
                    )
                }
            }),
    {
        match self.position_of(caller) {
            None => Err(Error::MemberNotFound),
            Some(i) => {
                proof {
                    kv::lemma_assoc_get(self.entries@, i as int);
                }
                let cur = self.entries[i].1;
                if cur.status == MemberStatus::Deleted || cur.status == MemberStatus::Locked {
                    Err(Error::InvalidStatusTransition)
                } else {
                    self.set_record(i, MemberData { status: MemberStatus::Chilled, level: cur.level });
                    Ok(Event::MemberStatusUpdated(caller, cur.status, MemberStatus::Chilled))
                }
            },
        }
    }

    /// The member reactivates itself; only allowed from chilled.
    pub fn unchill_member(&mut self, caller: AccountId) -> (r: Result<Event, Error>)
        requires
            old(self).wf(),
        ensures
            final(self).wf(),
            ({
                let pre = old(self)@;
                if !pre.contains_key(caller) {
                    r == Err::<Event, Error>(Error::MemberNotFound) && *final(self) == *old(self)
                } else if !(pre[caller].status is Chilled) {
                    r == Err::<Event, Error>(Error::InvalidStatusTransition) && *final(self) == *old(self)
                } else {
                    r == Ok::<Event, Error>(Event::MemberStatusUpdated(
                        caller,
                        pre[caller].status,
                        MemberStatus::Active,
                    )) && final(self)@ == pre.insert(
                        caller,
                        pre[caller].with_status(MemberStatus::Active),
                    )
                }
            }),
    {
        match self.position_of(caller) {
            None => Err(Error::MemberNotFound),
            Some(i) => {
                proof {
                    kv::lemma_assoc_get(self.entries@, i as int);
                }
                let cur = self.entries[i].1;
                if cur.status != MemberStatus::Chilled {
                    Err(Error::InvalidStatusTransition)
                } else {
                    self.set_record(i, MemberData { status: MemberStatus::Active, level: cur.level });
                    Ok(Event::MemberStatusUpdated(caller, cur.status, MemberStatus::Active))
                }
            },
        }
    }

    /// A curator locks the member; refused once deleted.
    pub fn lock_member(&mut self, roles: &RoleStore, caller: AccountId, account_id: AccountId) -> (r:
        Result<Event, Error>)
        requires
            old(self).wf(),
        ensures
            final(self).wf(),
            ({
                let pre = old(self)@;
                if !roles@.curators.contains(caller) {
                    r == Err::<Event, Error>(Error::NotACurator) && *final(self) == *old(self)
                } else if !pre.contains_key(account_id) {
                    r == Err::<Event, Error>(Error::MemberNotFound) && *final(self) == *old(self)
                } else if pre[account_id].status is Deleted {
                    r == Err::<Event, Error>(Error::InvalidStatusTransition) && *final(self) == *old(self)
                } else {
                    r == Ok::<Event, Error>(Event::MemberStatusUpdated(
                        account_id,
                        pre[account_id].status,
                        MemberStatus::Locked,
                    )) && final(self)@ == pre.insert(
                        account_id,
                        pre[account_id].with_status(MemberStatus::Locked),
                    )
                }
            }),
    {
        if !roles.is_curator(caller) {
            return Err(Error::NotACurator);
        }
        match self.position_of(account_id) {
            None => Err(Error::MemberNotFound),
            Some(i) => {
                proof {
                    kv::lemma_assoc_get(self.entries@, i as int);
                }
                let cur = self.entries[i].1;
                if cur.status == MemberStatus::Deleted {
                    Err(Error::InvalidStatusTransition)
                } else {
                    self.set_record(i, MemberData { status: MemberStatus::Locked, level: cur.level });
                    Ok(Event::MemberStatusUpdated(account_id, cur.status, MemberStatus::Locked))
                }
            },
        }
    }

    /// A curator unlocks the member; only allowed from locked.
    pub fn unlock_member(&mut self, roles: &RoleStore, caller: AccountId, account_id: AccountId) -> (r:
        Result<Event, Error>)
        requires
            old(self).wf(),
        ensures
            final(self).wf(),
            ({
                let pre = old(self)@;
                if !roles@.curators.contains(caller) {
                    r == Err::<Event, Error>(Error::NotACurator) && *final(self) == *old(self)
                } else if !pre.contains_key(account_id) {
                    r == Err::<Event, Error>(Error::MemberNotFound) && *final(self) == *old(self)
                } else if !(pre[account_id].status is Locked) {
                    r == Err::<Event, Error>(Error::InvalidStatusTransition) && *final(self) == *old(self)
                } else {
                    r == Ok::<Event, Error>(Event::MemberStatusUpdated(
                        account_id,
                        pre[account_id].status,
                        MemberStatus::Active,
                    )) && final(self)@ == pre.insert(
                        account_id,
                        pre[account_id].with_status(MemberStatus::Active),
                    )
                }
            }),
    {
        if !roles.is_curator(caller) {
            return Err(Error::NotACurator);
        }
        match self.position_of(account_id) {
            None => Err(Error::MemberNotFound),
            Some(i) => {
                proof {
                    kv::lemma_assoc_get(self.entries@, i as int);
                }
                let cur = self.entries[i].1;
                if cur.status != MemberStatus::Locked {
                    Err(Error::InvalidStatusTransition)
                } else {
                    self.set_record(i, MemberData { status: MemberStatus::Active, level: cur.level });
                    Ok(Event::MemberStatusUpdated(account_id, cur.status, MemberStatus::Active))
                }
            },
        }
    }

    /// A curator deletes the member; allowed from any status.
    pub fn delete_member(&mut self, roles: &RoleStore, caller: AccountId, account_id: AccountId) -> (r:
        Result<Event, Error>)
        requires
            old(self).wf(),
        ensures
            final(self).wf(),
            ({
                let pre = old(self)@;
                if !roles@.curators.contains(caller) {
                    r == Err::<Event, Error>(Error::NotACurator) && *final(self) == *old(self)
                } else if !pre.contains_key(account_id) {
                    r == Err::<Event, Error>(Error::MemberNotFound) && *final(self) == *old(self)
                } else {
                    r == Ok::<Event, Error>(Event::MemberStatusUpdated(
                        account_id,
                        pre[account_id].status,
                        MemberStatus::Deleted,
                    )) && final(self)@ == pre.insert(
                        account_id,
                        pre[account_id].with_status(MemberStatus::Deleted),
                    )
                }
            }),
    {
        if !roles.is_curator(caller) {
            return Err(Error::NotACurator);
        }
        match self.position_of(account_id) {
            None => Err(Error::MemberNotFound),
            Some(i) => {
                proof {
                    kv::lemma_assoc_get(self.entries@, i as int);
                }
                let cur = self.entries[i].1;
                self.set_record(i, MemberData { status: MemberStatus::Deleted, level: cur.level });
                Ok(Event::MemberStatusUpdated(account_id, cur.status, MemberStatus::Deleted))
            },
        }
    }

    /// A curator undeletes the member; only allowed from deleted. The
    /// target status is deleted again, so a successful call reports the
    /// transition but leaves the record as it was.
    pub fn undelete_member(&mut self, roles: &RoleStore, caller: AccountId, account_id: AccountId) -> (r:
        Result<Event, Error>)
        requires
            old(self).wf(),
        ensures
            final(self).wf(),
            ({
                let pre = old(self)@;
                if !roles@.curators.contains(caller) {
                    r == Err::<Event, Error>(Error::NotACurator) && *final(self) == *old(self)
                } else if !pre.contains_key(account_id) {
                    r == Err::<Event, Error>(Error::MemberNotFound) && *final(self) == *old(self)
                } else if !(pre[account_id].status is Deleted) {
                    r == Err::<Event, Error>(Error::InvalidStatusTransition) && *final(self) == *old(self)
                } else {
                    r == Ok::<Event, Error>(Event::MemberStatusUpdated(
                        account_id,
                        pre[account_id].status,
                        MemberStatus::Deleted,
                    )) && final(self)@ == pre.insert(
                        account_id,
                        pre[account_id].with_status(MemberStatus::Deleted),
                    )
                }
            }),
    {
        if !roles.is_curator(caller) {
            return Err(Error::NotACurator);
        }
        match self.position_of(account_id) {
            None => Err(Error::MemberNotFound),
            Some(i) => {
                proof {
                    kv::lemma_assoc_get(self.entries@, i as int);
                }
                let cur = self.entries[i].1;
                if cur.status != MemberStatus::Deleted {
                    Err(Error::InvalidStatusTransition)
                } else {
                    self.set_record(i, MemberData { status: MemberStatus::Deleted, level: cur.level });
                    Ok(Event::MemberStatusUpdated(account_id, cur.status, MemberStatus::Deleted))
                }
            },
        }
    }

    /// A curator overwrites the member's tier; allowed from any status.
    pub fn update_member_level(
        &mut self,
        roles: &RoleStore,
        caller: AccountId,
        account_id: AccountId,
        level: MembershipLevel,
    ) -> (r: Result<Event, Error>)
        requires
            old(self).wf(),
        ensures
            final(self).wf(),
            ({
                let pre = old(self)@;
                if !roles@.curators.contains(caller) {
                    r == Err::<Event, Error>(Error::NotACurator) && *final(self) == *old(self)
                } else if !pre.contains_key(account_id) {
                    r == Err::<Event, Error>(Error::MemberNotFound) && *final(self) == *old(self)
                } else {
                    r == Ok::<Event, Error>(Event::MembershipLevelUpdated(
                        account_id,
                        pre[account_id].level,
                        level,
                    )) && final(self)@ == pre.insert(account_id, pre[account_id].with_level(level))
                }
            }),
    {
        if !roles.is_curator(caller) {
            return Err(Error::NotACurator);
        }
        match self.position_of(account_id) {
            None => Err(Error::MemberNotFound),
            Some(i) => {
                proof {
                    kv::lemma_assoc_get(self.entries@, i as int);
                }
                let cur = self.entries[i].1;
                self.set_record(i, MemberData { status: cur.status, level });
                Ok(Event::MembershipLevelUpdated(account_id, cur.level, level))
            },
        }
    }
}

} // verus!
