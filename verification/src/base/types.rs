use vstd::prelude::*;

verus! {

/// A fixed-length byte string, compared byte for byte.
///
/// Group identifiers are `BytesN<32>`.
#[derive(Clone, Copy, Debug)]
pub struct BytesN<const N: usize> {
    pub bytes: [u8; N],
}

impl<const N: usize> BytesN<N> {
    /// Wraps a copy of `bytes`.
    pub fn from_array(bytes: &[u8; N]) -> (r: Self)
        ensures
            r.bytes == *bytes,
    {
        BytesN { bytes: *bytes }
    }

    /// Returns the bytes.
    pub fn to_array(&self) -> (r: [u8; N])
        ensures
            r == self.bytes,
    {
        self.bytes
    }
}

impl<const N: usize> PartialEq for BytesN<N> {
    fn eq(&self, other: &BytesN<N>) -> (r: bool) {
        let mut i: usize = 0;
        while i < N
            invariant
                i <= N,
                forall|j: int| 0 <= j < i ==> self.bytes@[j] == other.bytes@[j],
            decreases N - i,
        {
            if self.bytes[i] != other.bytes[i] {
                return false;
            }
            i += 1;
        }
        assert(self.bytes@ =~= other.bytes@);
        assert(self.bytes == other.bytes);
        true
    }
}

impl<const N: usize> Eq for BytesN<N> {

}

impl<const N: usize> vstd::std_specs::cmp::PartialEqSpecImpl for BytesN<N> {
    open spec fn obeys_eq_spec() -> bool {
        true
    }

    open spec fn eq_spec(&self, other: &BytesN<N>) -> bool {
        *self == *other
    }
}

/// What an [`Address`] names: a user account or a contract.
#[derive(Clone, Copy, Debug, PartialEq, Eq, Structural)]
pub enum AddressKind {
    Account,
    Contract,
}

/// The identity of a party: creators, members, payers, tokens and the admin
/// are all addresses. Two addresses are the same party exactly when kind and
/// key agree.
#[derive(Clone, Copy, Debug)]
pub struct Address {
    pub kind: AddressKind,
    pub key: [u8; 32],
}

impl Address {
    /// The address of the account with public key `key`.
    pub fn account(key: [u8; 32]) -> (r: Self)
        ensures
            r == (Address { kind: AddressKind::Account, key }),
    {
        Address { kind: AddressKind::Account, key }
    }

    /// The address of the contract with identifier `key`.
    pub fn contract(key: [u8; 32]) -> (r: Self)
        ensures
            r == (Address { kind: AddressKind::Contract, key }),
    {
        Address { kind: AddressKind::Contract, key }
    }
}

impl PartialEq for Address {
    fn eq(&self, other: &Address) -> (r: bool) {
        if self.kind != other.kind {
            return false;
        }
        let mut i: usize = 0;
        while i < 32
            invariant
                i <= 32,
                forall|j: int| 0 <= j < i ==> self.key@[j] == other.key@[j],
            decreases 32 - i,
        {
            if self.key[i] != other.key[i] {
                return false;
            }
            i += 1;
        }
        assert(self.key@ =~= other.key@);
        assert(self.key == other.key);
        true
    }
}

impl Eq for Address {

}

impl vstd::std_specs::cmp::PartialEqSpecImpl for Address {
    open spec fn obeys_eq_spec() -> bool {
        true
    }

    open spec fn eq_spec(&self, other: &Address) -> bool {
        *self == *other
    }
}

/// One beneficiary of a group and the share of each distribution it is
/// entitled to, in percent.
#[derive(Clone, Copy, Debug, PartialEq, Eq)]
pub struct GroupMember {
    pub address: Address,
    pub percentage: u32,
}

/// The record of a group.
#[derive(Debug, PartialEq, Eq)]
pub struct AutoShareDetails {
    pub id: BytesN<32>,
    pub name: String,
    pub creator: Address,
    /// Prepaid usage credits still unspent.
    pub usage_count: u32,
    /// Usage credits ever bought for the group.
    pub total_usages_paid: u32,
    /// Members in insertion order; the last one receives the remainder of
    /// each distribution.
    pub members: Vec<GroupMember>,
    pub is_active: bool,
}

/// Mathematical value of an [`AutoShareDetails`].
#[verifier::ext_equal]
pub ghost struct GroupView {
    pub id: BytesN<32>,
    pub name: Seq<char>,
    pub creator: Address,
    pub usage_count: u32,
    pub total_usages_paid: u32,
    pub members: Seq<GroupMember>,
    pub is_active: bool,
}

impl View for AutoShareDetails {
    type V = GroupView;

    open spec fn view(&self) -> GroupView {
        GroupView {
            id: self.id,
            name: self.name@,
            creator: self.creator,
            usage_count: self.usage_count,
            total_usages_paid: self.total_usages_paid,
            members: self.members@,
            is_active: self.is_active,
        }
    }
}

impl Clone for AutoShareDetails {
    fn clone(&self) -> (r: Self)
        ensures
            r@ == self@,
    {
        let members = self.members.clone();
        assert(members@ =~= self.members@);
        AutoShareDetails {
            id: self.id,
            name: self.name.clone(),
            creator: self.creator,
            usage_count: self.usage_count,
            total_usages_paid: self.total_usages_paid,
            members,
            is_active: self.is_active,
        }
    }
}

/// One purchase of usage credits.
#[derive(Clone, Copy, Debug, PartialEq, Eq)]
pub struct PaymentHistory {
    pub user: Address,
    pub group_id: BytesN<32>,
    pub usages_purchased: u32,
    pub amount_paid: i128,
    pub timestamp: u64,
}

/// What one member received in one distribution.
#[derive(Clone, Copy, Debug, PartialEq, Eq)]
pub struct MemberAmount {
    pub address: Address,
    pub amount: i128,
}

/// The record of one distribution.
#[derive(Debug, PartialEq, Eq)]
pub struct DistributionHistory {
    pub group_id: BytesN<32>,
    pub sender: Address,
    pub total_amount: i128,
    pub token: Address,
    /// The members that were paid, in payout order; members whose share was
    /// zero do not appear.
    pub member_amounts: Vec<MemberAmount>,
    pub timestamp: u64,
    /// Ordinal of the distribution among those applied to the group,
    /// counted from zero.
    pub distribution_number: u32,
}

/// Mathematical value of a [`DistributionHistory`].
#[verifier::ext_equal]
pub ghost struct DistributionView {
    pub group_id: BytesN<32>,
    pub sender: Address,
    pub total_amount: i128,
    pub token: Address,
    pub member_amounts: Seq<MemberAmount>,
    pub timestamp: u64,
    pub distribution_number: u32,
}

impl View for DistributionHistory {
    type V = DistributionView;

    open spec fn view(&self) -> DistributionView {
        DistributionView {
            group_id: self.group_id,
            sender: self.sender,
            total_amount: self.total_amount,
            token: self.token,
            member_amounts: self.member_amounts@,
            timestamp: self.timestamp,
            distribution_number: self.distribution_number,
        }
    }
}

impl Clone for DistributionHistory {
    fn clone(&self) -> (r: Self)
        ensures
            r@ == self@,
    {
        let member_amounts = self.member_amounts.clone();
        assert(member_amounts@ =~= self.member_amounts@);
        DistributionHistory {
            group_id: self.group_id,
            sender: self.sender,
            total_amount: self.total_amount,
            token: self.token,
            member_amounts,
            timestamp: self.timestamp,
            distribution_number: self.distribution_number,
        }
    }
}

/// Mathematical values of a list of groups.
pub open spec fn group_views(groups: Seq<AutoShareDetails>) -> Seq<GroupView> {
    groups.map_values(|g: AutoShareDetails| g@)
}

/// Mathematical values of a list of distributions.
pub open spec fn distribution_views(distributions: Seq<DistributionHistory>) -> Seq<
    DistributionView,
> {
    distributions.map_values(|d: DistributionHistory| d@)
}

} // verus!
