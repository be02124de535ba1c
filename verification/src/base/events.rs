use crate::base::types::{Address, BytesN};
use vstd::prelude::*;

verus! {

/// A group was created.
#[derive(Clone, Copy, Debug, PartialEq, Eq)]
pub struct AutoshareCreated {
    pub creator: Address,
    pub id: BytesN<32>,
}

/// The contract was paused.
#[derive(Clone, Copy, Debug, PartialEq, Eq)]
pub struct ContractPaused {}

/// The contract was unpaused.
#[derive(Clone, Copy, Debug, PartialEq, Eq)]
pub struct ContractUnpaused {}

/// The member list of a group was changed.
#[derive(Clone, Copy, Debug, PartialEq, Eq)]
pub struct AutoshareUpdated {
    pub updater: Address,
    pub id: BytesN<32>,
}

/// A group was deactivated.
#[derive(Clone, Copy, Debug, PartialEq, Eq)]
pub struct GroupDeactivated {
    pub creator: Address,
    pub id: BytesN<32>,
}

/// A group was activated again.
#[derive(Clone, Copy, Debug, PartialEq, Eq)]
pub struct GroupActivated {
    pub creator: Address,
    pub id: BytesN<32>,
}

/// A group was deleted.
#[derive(Clone, Copy, Debug, PartialEq, Eq)]
pub struct GroupDeleted {
    pub deleter: Address,
    pub id: BytesN<32>,
}

/// The admin role passed from one address to another.
#[derive(Clone, Copy, Debug, PartialEq, Eq)]
pub struct AdminTransferred {
    pub old_admin: Address,
    pub new_admin: Address,
}

/// The admin withdrew funds from custody.
#[derive(Clone, Copy, Debug, PartialEq, Eq)]
pub struct Withdrawal {
    pub token: Address,
    pub recipient: Address,
    pub amount: i128,
}

/// A payment was distributed among the members of a group.
#[derive(Clone, Copy, Debug, PartialEq, Eq)]
pub struct Distribution {
    pub id: BytesN<32>,
    pub token: Address,
    pub sender: Address,
    pub amount: i128,
}

/// Any notification the contract publishes.
#[derive(Clone, Copy, Debug, PartialEq, Eq)]
pub enum Event {
    AutoshareCreated(AutoshareCreated),
    ContractPaused(ContractPaused),
    ContractUnpaused(ContractUnpaused),
    AutoshareUpdated(AutoshareUpdated),
    GroupDeactivated(GroupDeactivated),
    GroupActivated(GroupActivated),
    GroupDeleted(GroupDeleted),
    AdminTransferred(AdminTransferred),
    Withdrawal(Withdrawal),
    Distribution(Distribution),
}

} // verus!
