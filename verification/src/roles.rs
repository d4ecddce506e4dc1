//! The role store.
//!
//! Two independent capability sets gate the registry's mutations: curators,
//! who administer member and service records and may clear any alert, and
//! monitors, who submit alerts. The curator set is bounded: never empty and
//! never larger than `MAX_CURATORS`. Joining the monitor set requires an
//! existing member record. Removing a curator is the one operation gated on
//! the host's root capability rather than on a signed caller.

use vstd::prelude::*;

use crate::ids::AccountId;
use crate::kv;
use crate::member::MemberStore;

verus! {

/// Most curators the registry accepts at once.
pub const MAX_CURATORS: usize = 5;

/// The authority behind a call, as the host resolved it.
#[derive(Clone, Copy, Debug, PartialEq, Eq, Structural)]
pub enum Origin {
    /// The host's root capability; no account is behind the call.
    Root,
    /// An authenticated account.
    Signed(AccountId),
}

/// Why a role operation was refused.
#[derive(Clone, Copy, Debug, PartialEq, Eq, Structural)]
pub enum Error {
    Unauthenticated,
    NotACurator,
    CuratorAlreadyExists,
    CuratorLimitReached,
    CannotRemoveLastCurator,
    NotAMonitor,
    MemberNotFound,
}

/// The notification a successful role operation returns.
#[derive(Clone, Copy, Debug, PartialEq, Eq, Structural)]
pub enum Event {
    CuratorAssigned(AccountId),
    CuratorRemoved(AccountId),
    MonitorAssigned(AccountId),
    MonitorRemoved(AccountId),
}

/// What the role store holds: the two capability sets.
pub ghost struct RoleView {
    pub curators: Set<AccountId>,
    pub monitors: Set<AccountId>,
}

/// The curator and monitor capability sets.
pub struct RoleStore {
    curators: Vec<AccountId>,
    monitors: Vec<AccountId>,
}

impl View for RoleStore {
    type V = RoleView;

    closed spec fn view(&self) -> RoleView {
        RoleView { curators: self.curators@.to_set(), monitors: self.monitors@.to_set() }
    }
}

/// Whether the vector holds the identifier.
fn contains_id(v: &Vec<AccountId>, id: AccountId) -> (r: bool)
    ensures
        r == v@.contains(id),
{
    let mut i: usize = 0;
    while i < v.len()
        invariant
            i <= v@.len(),
            forall|j: int| 0 <= j < i ==> v@[j] != id,
        decreases v@.len() - i,
    {
        if v[i] == id {
            return true;
        }
        i += 1;
    }
    proof {
        if v@.contains(id) {
            let j = choose|j: int| 0 <= j < v@.len() && v@[j] == id;
        }
    }
    false
}

/// The slot holding the identifier, when one does.
fn position_of_id(v: &Vec<AccountId>, id: AccountId) -> (r: Option<usize>)
    ensures
        match r {
            Some(i) => i < v@.len() && v@[i as int] == id,
            None => !v@.contains(id),
        },
{
    let mut i: usize = 0;
    while i < v.len()
        invariant
            i <= v@.len(),
            forall|j: int| 0 <= j < i ==> v@[j] != id,
        decreases v@.len() - i,
    {
        if v[i] == id {
            return Some(i);
        }
        i += 1;
    }
    proof {
        if v@.contains(id) {
            let j = choose|j: int| 0 <= j < v@.len() && v@[j] == id;
        }
    }
    None
}

impl RoleStore {
    /// Each set lists an account once; there is always a curator, and never
    /// more than `MAX_CURATORS` of them.
    pub closed spec fn wf(self) -> bool {
        &&& self.curators@.no_duplicates()
        &&& self.monitors@.no_duplicates()
        &&& 1 <= self.curators@.len() <= MAX_CURATORS
    }

    /// A store with the given account as its one curator and no monitors.
    pub fn new(initial_curator: AccountId) -> (r: RoleStore)
        ensures
            r.wf(),
            r@.curators == set![initial_curator],
            r@.monitors == Set::<AccountId>::empty(),
            r@.curators.len() == 1,
    {
        let mut curators: Vec<AccountId> = Vec::new();
        curators.push(initial_curator);
        let r = RoleStore { curators, monitors: Vec::new() };
        proof {
            let s = r.curators@;
            assert(s =~= seq![initial_curator]);
            assert forall|a: AccountId| s.to_set().contains(a) implies set![initial_curator].contains(a) by {
                let i = choose|i: int| 0 <= i < s.len() && s[i] == a;
            }
            assert(s.contains(initial_curator)) by {
                assert(s[0] == initial_curator);
            }
            assert(s.to_set() =~= set![initial_curator]);
            s.unique_seq_to_set();
            assert(r.monitors@.to_set() =~= Set::<AccountId>::empty());
        }
        r
    }

    /// Whether the account holds the curator capability.
    pub fn is_curator(&self, id: AccountId) -> (r: bool)
        ensures
            r == self@.curators.contains(id),
    {
        contains_id(&self.curators, id)
    }

    /// Whether the account holds the monitor capability.
    pub fn is_monitor(&self, id: AccountId) -> (r: bool)
        ensures
            r == self@.monitors.contains(id),
    {
        contains_id(&self.monitors, id)
    }

    /// How many accounts hold the curator capability.
    pub fn curator_count(&self) -> (n: usize)
        requires
            self.wf(),
        ensures
            n == self@.curators.len(),
    {
        proof {
            self.curators@.unique_seq_to_set();
        }
        self.curators.len()
    }

    /// Grants the curator capability. No caller gate: the host exposes this
    /// operation to any signed account.
    pub fn assign_curator(&mut self, account_id: AccountId) -> (r: Result<Event, Error>)
        requires
            old(self).wf(),
        ensures
            final(self).wf(),
            ({
                let pre = old(self)@;
                if pre.curators.contains(account_id) {
                    r == Err::<Event, Error>(Error::CuratorAlreadyExists) && *final(self) == *old(self)
                } else if pre.curators.len() >= MAX_CURATORS {
                    r == Err::<Event, Error>(Error::CuratorLimitReached) && *final(self) == *old(self)
                } else {
                    r == Ok::<Event, Error>(Event::CuratorAssigned(account_id))
                        && final(self)@.curators == pre.curators.insert(account_id)
                        && final(self)@.monitors == pre.monitors
                }
            }),
    {
        proof {
            self.curators@.unique_seq_to_set();
        }
        if contains_id(&self.curators, account_id) {
            return Err(Error::CuratorAlreadyExists);
        }
        if self.curators.len() >= MAX_CURATORS {
            return Err(Error::CuratorLimitReached);
        }
        proof {
            kv::lemma_to_set_push(self.curators@, account_id);
            kv::lemma_no_dup_push(self.curators@, account_id);
        }
        self.curators.push(account_id);
        proof {
            self.curators@.unique_seq_to_set();
        }
        Ok(Event::CuratorAssigned(account_id))
    }

    /// Revokes the curator capability; gated on the root origin, and never
    /// allowed to empty the curator set.
    pub fn remove_curator(&mut self, origin: Origin, account_id: AccountId) -> (r: Result<Event, Error>)
        requires
            old(self).wf(),
        ensures
            final(self).wf(),
            ({
                let pre = old(self)@;
                if !(origin is Root) {
                    r == Err::<Event, Error>(Error::Unauthenticated) && *final(self) == *old(self)
                } else if !pre.curators.contains(account_id) {
                    r == Err::<Event, Error>(Error::NotACurator) && *final(self) == *old(self)
                } else if pre.curators.len() <= 1 {
                    r == Err::<Event, Error>(Error::CannotRemoveLastCurator) && *final(self) == *old(self)
                } else {
                    r == Ok::<Event, Error>(Event::CuratorRemoved(account_id))
                        && final(self)@.curators == pre.curators.remove(account_id)
                        && final(self)@.monitors == pre.monitors
                }
            }),
            old(self)@.curators.len() == 1 ==> r is Err && *final(self) == *old(self),
    {
        proof {
            self.curators@.unique_seq_to_set();
        }
        match origin {
            Origin::Signed(_) => Err(Error::Unauthenticated),
            Origin::Root => {
                match position_of_id(&self.curators, account_id) {
                    None => Err(Error::NotACurator),
                    Some(i) => {
                        if self.curators.len() <= 1 {
                            Err(Error::CannotRemoveLastCurator)
                        } else {
                            proof {
                                kv::lemma_to_set_remove(self.curators@, i as int);
                            }
                            self.curators.remove(i);
                            proof {
                                self.curators@.unique_seq_to_set();
                            }
                            Ok(Event::CuratorRemoved(account_id))
                        }
                    },
                }
            },
        }
    }

    /// A curator grants the monitor capability to a registered member.
    /// Granting it again to a monitor succeeds and changes nothing.
    pub fn assign_monitor(&mut self, members: &MemberStore, caller: AccountId, account_id: AccountId) -> (r:
        Result<Event, Error>)
        requires
            old(self).wf(),
        ensures
            final(self).wf(),
            ({
                let pre = old(self)@;
                if !members@.contains_key(account_id) {
                    r == Err::<Event, Error>(Error::MemberNotFound) && *final(self) == *old(self)
                } else if !pre.curators.contains(caller) {
                    r == Err::<Event, Error>(Error::NotACurator) && *final(self) == *old(self)
                } else {
                    r == Ok::<Event, Error>(Event::MonitorAssigned(account_id))
                        && final(self)@.monitors == pre.monitors.insert(account_id)
                        && final(self)@.curators == pre.curators
                }
            }),
    {
        if !members.contains_member(account_id) {
            return Err(Error::MemberNotFound);
        }
        if !contains_id(&self.curators, caller) {
            return Err(Error::NotACurator);
        }
        if contains_id(&self.monitors, account_id) {
            proof {
                assert(self@.monitors.insert(account_id) =~= self@.monitors);
            }
            return Ok(Event::MonitorAssigned(account_id));
        }
        proof {
            kv::lemma_to_set_push(self.monitors@, account_id);
            kv::lemma_no_dup_push(self.monitors@, account_id);
        }
        self.monitors.push(account_id);
        Ok(Event::MonitorAssigned(account_id))
    }

    /// A curator revokes the monitor capability.
    pub fn remove_monitor(&mut self, caller: AccountId, account_id: AccountId) -> (r: Result<Event, Error>)
        requires
            old(self).wf(),
        ensures
            final(self).wf(),
            ({
                let pre = old(self)@;
                if !pre.curators.contains(caller) {
                    r == Err::<Event, Error>(Error::NotACurator) && *final(self) == *old(self)
                } else if !pre.monitors.contains(account_id) {
                    r == Err::<Event, Error>(Error::NotAMonitor) && *final(self) == *old(self)
                } else {
                    r == Ok::<Event, Error>(Event::MonitorRemoved(account_id))
                        && final(self)@.monitors == pre.monitors.remove(account_id)
                        && final(self)@.curators == pre.curators
                }
            }),
    {
        if !contains_id(&self.curators, caller) {
            return Err(Error::NotACurator);
        }
        match position_of_id(&self.monitors, account_id) {
            None => Err(Error::NotAMonitor),
            Some(i) => {
                proof {
                    kv::lemma_to_set_remove(self.monitors@, i as int);
                }
                self.monitors.remove(i);
                Ok(Event::MonitorRemoved(account_id))
            },
        }
    }
}

} // verus!
