use vstd::prelude::*;
use crate::contract::{fungible_deposited, native_deposited};
use crate::state::{Store, LOCK_WINDOW};

verus! {

/// The sum of a sequence of deposit amounts.
pub open spec fn sum_amounts(s: Seq<u128>) -> int
    decreases s.len(),
{
    if s.len() == 0 {
        0
    } else {
        sum_amounts(s.drop_last()) + s.last()
    }
}

/// `states` is a run of successful native deposits to (owner, denom), one per
/// amount, each relating a state to the next.
pub open spec fn native_deposit_chain(
    states: Seq<Store>,
    owner: Seq<char>,
    denom: Seq<char>,
    amounts: Seq<u128>,
) -> bool {
    &&& states.len() == amounts.len() + 1
    &&& forall|i: int|
        0 <= i < amounts.len() ==> #[trigger] native_deposited(
            states[i],
            states[i + 1],
            owner,
            denom,
            amounts[i],
        )
}

/// Across any run of successful native deposits to one (owner, denom) key
/// that starts from no record, the final recorded amount equals the sum of
/// the deposited amounts, and the recorded count equals the number of
/// deposits.
pub proof fn lemma_native_deposit_sum(
    states: Seq<Store>,
    owner: Seq<char>,
    denom: Seq<char>,
    amounts: Seq<u128>,
)
    requires
        native_deposit_chain(states, owner, denom, amounts),
        !states[0].has_native(owner, denom),
    ensures
        amounts.len() == 0 ==> !states.last().has_native(owner, denom),
        amounts.len() > 0 ==> states.last().has_native(owner, denom) && states.last().native_at(
            owner,
            denom,
        ).coins.amount == sum_amounts(amounts) && states.last().native_at(owner, denom).count
            == amounts.len(),
    decreases amounts.len(),
{
    if amounts.len() == 0 {
        assert(states.last() == states[0]);
    } else {
        let n = amounts.len() as int;
        let prefix_states = states.take(n);
        let prefix_amounts = amounts.take(n - 1);
        assert(native_deposit_chain(prefix_states, owner, denom, prefix_amounts)) by {
            assert forall|i: int| 0 <= i < prefix_amounts.len() implies #[trigger] native_deposited(
                prefix_states[i],
                prefix_states[i + 1],
                owner,
                denom,
                prefix_amounts[i],
            ) by {
                assert(prefix_states[i] == states[i]);
                assert(prefix_states[i + 1] == states[i + 1]);
                assert(prefix_amounts[i] == amounts[i]);
                assert(native_deposited(states[i], states[i + 1], owner, denom, amounts[i]));
            }
        }
        assert(prefix_states[0] == states[0]);
        lemma_native_deposit_sum(prefix_states, owner, denom, prefix_amounts);
        assert(native_deposited(states[n - 1], states[n], owner, denom, amounts[n - 1]));
        assert(prefix_states.last() == states[n - 1]);
        assert(states.last() == states[n]);
        assert(prefix_amounts =~= amounts.drop_last());
        assert(amounts.last() == amounts[n - 1]);
        assert(sum_amounts(amounts) == sum_amounts(prefix_amounts) + amounts[n - 1]);
        if n == 1 {
            assert(!states[n - 1].has_native(owner, denom));
            assert(states[n].native_at(owner, denom).coins.amount == amounts[0]);
            assert(states[n].native_at(owner, denom).count == 1);
        } else {
            assert(states[n - 1].has_native(owner, denom));
            assert(states[n - 1].native_at(owner, denom).coins.amount == sum_amounts(
                prefix_amounts,
            ));
            assert(states[n - 1].native_at(owner, denom).count == n - 1);
            assert(states[n].native_at(owner, denom).coins.amount == sum_amounts(prefix_amounts)
                + amounts[n - 1]);
            assert(states[n].native_at(owner, denom).count == n);
        }
        assert(states.last().has_native(owner, denom));
    }
}

/// Re-depositing to an existing fungible record resets the time-lock relative
/// to the newest deposit height: after deposits at heights `h1` then `h2`,
/// the expiry is `h2 + LOCK_WINDOW`, whatever `h1` was.
pub proof fn lemma_fungible_redeposit_resets_lock(
    s0: Store,
    s1: Store,
    s2: Store,
    owner: Seq<char>,
    contract: Seq<char>,
    a1: u128,
    a2: u128,
    h1: u64,
    h2: u64,
)
    requires
        fungible_deposited(s0, s1, owner, contract, a1, h1),
        fungible_deposited(s1, s2, owner, contract, a2, h2),
    ensures
        s2.fungible_at(owner, contract).stake_time == h2 + LOCK_WINDOW,
{
}

/// After a fungible deposit at height `h`, a height clears the record's
/// time-lock if and only if it is at least `h + LOCK_WINDOW`.
pub proof fn lemma_lock_window_from_deposit(
    s0: Store,
    s1: Store,
    owner: Seq<char>,
    contract: Seq<char>,
    amount: u128,
    h: u64,
    h2: u64,
)
    requires
        fungible_deposited(s0, s1, owner, contract, amount, h),
    ensures
        (h2 >= s1.fungible_at(owner, contract).stake_time) <==> (h2 >= h + LOCK_WINDOW),
{
}

} // verus!
