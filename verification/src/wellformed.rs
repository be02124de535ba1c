//! Checking at run time that a state read back from storage satisfies the
//! invariant of the contract.

use crate::base::types::{Address, AutoShareDetails, BytesN, GroupMember};
use crate::model::{distinct_members, lemma_total_percentage_take, total_percentage};
use crate::state::State;
use vstd::prelude::*;

verus! {

/// Says whether no address occurs twice in `members` and their percentages
/// sum to at most one hundred.
fn members_well_formed(members: &Vec<GroupMember>) -> (r: bool)
    ensures
        r == (distinct_members(members@) && total_percentage(members@) <= 100),
{
    let mut total: u128 = 0;
    let mut i: usize = 0;
    while i < members.len()
        invariant
            i <= members.len(),
            distinct_members(members@.take(i as int)),
            total == total_percentage(members@.take(i as int)),
            total <= 100,
        decreases members.len() - i,
    {
        proof {
            lemma_total_percentage_take(members@, i as int);
        }
        let mut k: usize = 0;
        while k < i
            invariant
                k <= i < members.len(),
                forall|j: int| 0 <= j < k ==> members@[j].address != members@[i as int].address,
            decreases i - k,
        {
            if members[k].address == members[i].address {
                return false;
            }
            k += 1;
        }
        total = total + members[i].percentage as u128;
        if total > 100 {
            proof {
                lemma_total_percentage_take(members@, i + 1);
            }
            return false;
        }
        assert forall|a: int, b: int| 0 <= a < b < i + 1 implies (#[trigger] members@.take(
            i + 1,
        )[a]).address != (#[trigger] members@.take(i + 1)[b]).address by {
            if b < i {
                assert(members@.take(i as int)[a].address != members@.take(i as int)[b].address);
            }
        }
        i += 1;
    }
    assert(members@.take(i as int) =~= members@);
    true
}

/// Says whether a group satisfies the invariant of groups.
fn group_well_formed(group: &AutoShareDetails) -> (r: bool)
    ensures
        r == group@.wf(),
{
    group.usage_count <= group.total_usages_paid && members_well_formed(&group.members)
}

/// Says whether no token occurs twice among the supported tokens.
fn tokens_distinct(tokens: &Vec<Address>) -> (r: bool)
    ensures
        r == tokens@.no_duplicates(),
{
    let mut i: usize = 0;
    while i < tokens.len()
        invariant
            i <= tokens.len(),
            forall|a: int, b: int| 0 <= a < b < i ==> tokens@[a] != tokens@[b],
        decreases tokens.len() - i,
    {
        let mut k: usize = 0;
        while k < i
            invariant
                k <= i < tokens.len(),
                forall|j: int| 0 <= j < k ==> tokens@[j] != tokens@[i as int],
            decreases i - k,
        {
            if tokens[k] == tokens[i] {
                return false;
            }
            k += 1;
        }
        i += 1;
    }
    true
}

/// Says whether every group is well-formed and no identifier occurs twice.
fn groups_well_formed(state: &State) -> (r: bool)
    ensures
        r == ((forall|i: int, j: int|
            0 <= i < j < state@.groups.len() ==> (#[trigger] state@.groups[i]).id != (
            #[trigger] state@.groups[j]).id) && (forall|i: int|
            0 <= i < state@.groups.len() ==> (#[trigger] state@.groups[i]).wf())),
{
    let mut i: usize = 0;
    while i < state.groups.len()
        invariant
            i <= state.groups.len(),
            forall|a: int, b: int|
                0 <= a < b < i ==> (#[trigger] state@.groups[a]).id != (
                #[trigger] state@.groups[b]).id,
            forall|a: int| 0 <= a < i ==> (#[trigger] state@.groups[a]).wf(),
        decreases state.groups.len() - i,
    {
        if !group_well_formed(&state.groups[i]) {
            assert(!state@.groups[i as int].wf());
            return false;
        }
        let mut k: usize = 0;
        while k < i
            invariant
                k <= i < state.groups.len(),
                forall|j: int|
                    0 <= j < k ==> (#[trigger] state@.groups[j]).id != state@.groups[i as int].id,
            decreases i - k,
        {
            if state.groups[k].id == state.groups[i].id {
                assert(state@.groups[k as int].id == state@.groups[i as int].id);
                return false;
            }
            k += 1;
        }
        i += 1;
    }
    true
}

impl State {
    /// Says whether the invariant of the contract holds of this state.
    ///
    /// Every operation asks for a well-formed state. [`State::new`] gives
    /// one and the operations keep it; a state put together in any other
    /// way is to be checked here before it is used.
    pub fn is_well_formed(&self) -> (r: bool)
        ensures
            r == self.wf(),
    {
        self.usage_fee > 0 && (!self.paused || self.admin.is_some()) && tokens_distinct(
            &self.supported_tokens,
        ) && groups_well_formed(self)
    }

    /// Says whether `additional_usages` more usage credits can be bought
    /// for the group `id` without its counters leaving their range.
    pub fn topup_fits(&self, id: BytesN<32>, additional_usages: u32) -> (r: bool)
        requires
            self.wf(),
        ensures
            r == self@.topup_fits(id, additional_usages),
    {
        match crate::autoshare_logic::find_group(self, &id) {
            Some(i) => self.groups[i].total_usages_paid <= u32::MAX - additional_usages,
            None => true,
        }
    }
}

} // verus!
