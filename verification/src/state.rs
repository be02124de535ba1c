use crate::base::events::Event;
use crate::base::types::{
    distribution_views, group_views, Address, AutoShareDetails, DistributionHistory,
    DistributionView, GroupView, PaymentHistory,
};
use vstd::prelude::*;

verus! {

/// The usage fee in force until the admin sets another.
pub const DEFAULT_USAGE_FEE: u32 = 10;

/// A token movement the contract asks its host to carry out.
///
/// The host performs the transfers of a call in order and together with the
/// call's changes to the records: if one fails, the whole call is undone.
#[derive(Clone, Copy, Debug, PartialEq, Eq)]
pub enum Transfer {
    /// Move `amount` of `token` from `from` into the contract's custody.
    Collect { token: Address, from: Address, amount: i128 },
    /// Move `amount` of `token` out of the contract's custody to `to`.
    Pay { token: Address, to: Address, amount: i128 },
}

/// Everything the contract owns and everything it has asked of its host.
pub struct State {
    /// The admin, once initialized.
    pub admin: Option<Address>,
    /// While set, every mutating operation but pausing, unpausing and
    /// passing on the admin role is refused.
    pub paused: bool,
    /// Price of one usage credit, in the smallest unit of the payment token.
    pub usage_fee: u32,
    /// Tokens accepted for payment.
    pub supported_tokens: Vec<Address>,
    /// The groups, in creation order.
    pub groups: Vec<AutoShareDetails>,
    /// Every purchase of usage credits, oldest first. Never shortened.
    pub payments: Vec<PaymentHistory>,
    /// Every distribution, oldest first. Never shortened.
    pub distributions: Vec<DistributionHistory>,
    /// Current time of the host's clock; stamps history records.
    pub timestamp: u64,
    /// Token transfers requested so far, oldest first.
    pub transfers: Vec<Transfer>,
    /// Events published so far, oldest first.
    pub events: Vec<Event>,
    /// The parties that authorized the call in progress, as the host has
    /// verified.
    pub authorized: Vec<Address>,
}

/// Mathematical value of a [`State`].
#[verifier::ext_equal]
pub ghost struct StateView {
    pub admin: Option<Address>,
    pub paused: bool,
    pub usage_fee: u32,
    pub supported_tokens: Seq<Address>,
    pub groups: Seq<GroupView>,
    pub payments: Seq<PaymentHistory>,
    pub distributions: Seq<DistributionView>,
    pub timestamp: u64,
    pub transfers: Seq<Transfer>,
    pub events: Seq<Event>,
    pub authorized: Seq<Address>,
}

impl View for State {
    type V = StateView;

    open spec fn view(&self) -> StateView {
        StateView {
            admin: self.admin,
            paused: self.paused,
            usage_fee: self.usage_fee,
            supported_tokens: self.supported_tokens@,
            groups: group_views(self.groups@),
            payments: self.payments@,
            distributions: distribution_views(self.distributions@),
            timestamp: self.timestamp,
            transfers: self.transfers@,
            events: self.events@,
            authorized: self.authorized@,
        }
    }
}

impl State {
    /// The state of a contract that has not been used yet: no admin, not
    /// paused, the default usage fee, and nothing else.
    pub fn new() -> (state: State)
        ensures
            state@ == StateView::initial(),
            state.wf(),
    {
        let state = State {
            admin: None,
            paused: false,
            usage_fee: DEFAULT_USAGE_FEE,
            supported_tokens: Vec::new(),
            groups: Vec::new(),
            payments: Vec::new(),
            distributions: Vec::new(),
            timestamp: 0,
            transfers: Vec::new(),
            events: Vec::new(),
            authorized: Vec::new(),
        };
        assert(state@ =~= StateView::initial());
        state
    }

    /// The invariant of the contract holds of this state.
    pub open spec fn wf(&self) -> bool {
        self@.wf()
    }

    /// Records that the host has verified `who`'s authorization of the call
    /// in progress. Operations that act for a party ask for this first.
    pub fn authorize(&mut self, who: Address)
        ensures
            final(self)@ == (StateView {
                authorized: old(self)@.authorized.push(who),
                ..old(self)@
            }),
            final(self)@.has_auth(who),
            old(self).wf() ==> final(self).wf(),
            forall|other: Address| old(self)@.has_auth(other) ==> final(self)@.has_auth(other),
    {
        self.authorized.push(who);
        assert(self@ =~= (StateView {
            authorized: old(self)@.authorized.push(who),
            ..old(self)@
        }));
        assert(self@.authorized.last() == who);
        assert forall|other: Address| old(self)@.has_auth(other) implies self@.has_auth(
            other,
        ) by {
            let i = old(self)@.authorized.index_of(other);
            assert(self@.authorized[i] == other);
        }
    }

    /// Says whether `who` has authorized the call in progress.
    pub fn is_authorized(&self, who: Address) -> (r: bool)
        ensures
            r == self@.has_auth(who),
    {
        let mut i: usize = 0;
        while i < self.authorized.len()
            invariant
                i <= self.authorized.len(),
                forall|j: int| 0 <= j < i ==> self.authorized@[j] != who,
            decreases self.authorized.len() - i,
        {
            if self.authorized[i] == who {
                return true;
            }
            i += 1;
        }
        false
    }
}

} // verus!
