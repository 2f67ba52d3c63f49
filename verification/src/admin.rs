use vstd::prelude::*;

use crate::errors::Error;
use crate::state::ContractState;
use crate::types::{AccountId, TokenId};

verus! {

/// Store `admin` as the contract's admin and clear the pause flag.
/// One-time: fails once an admin is stored.
pub fn initialize(state: &mut ContractState, admin: AccountId) -> (r: Result<(), Error>)
    requires
        old(state).wf(),
    ensures
        final(state).wf(),
        old(state).conserved() ==> final(state).conserved(),
        r is Ok <==> old(state).admin is None,
        old(state).admin is Some ==> r == Err::<(), Error>(Error::AlreadyInitialized),
        r is Ok ==> final(state).admin == Some(admin) && !final(state).paused,
        r is Err ==> *final(state) == *old(state),
        final(state).ledger == old(state).ledger,
        final(state).giveaways == old(state).giveaways,
        final(state).entries == old(state).entries,
        final(state).requests == old(state).requests,
        final(state).id_counter == old(state).id_counter,
        final(state).request_counter == old(state).request_counter,
{
    match state.admin {
        Some(_) => Err(Error::AlreadyInitialized),
        None => {
            state.admin = Some(admin);
            state.paused = false;
            Ok(())
        },
    }
}

/// Set the emergency pause flag. Only the stored admin may call this; the
/// flag is consulted by the creation, entry, and donation entry points.
pub fn set_paused(state: &mut ContractState, caller: AccountId, paused: bool) -> (r: Result<
    (),
    Error,
>)
    requires
        old(state).wf(),
    ensures
        final(state).wf(),
        old(state).conserved() ==> final(state).conserved(),
        r is Ok <==> old(state).admin == Some(caller),
        r is Err ==> r == Err::<(), Error>(Error::NotAdmin),
        r is Ok ==> final(state).paused == paused && final(state).admin == old(state).admin,
        r is Err ==> *final(state) == *old(state),
        final(state).ledger == old(state).ledger,
        final(state).giveaways == old(state).giveaways,
        final(state).entries == old(state).entries,
        final(state).requests == old(state).requests,
        final(state).id_counter == old(state).id_counter,
        final(state).request_counter == old(state).request_counter,
{
    match state.admin {
        None => Err(Error::NotAdmin),
        Some(stored) => {
            if stored != caller {
                Err(Error::NotAdmin)
            } else {
                state.paused = paused;
                Ok(())
            }
        },
    }
}

/// Marker type that groups the admin escape hatch.
pub struct AdminContract;

impl AdminContract {
    /// Emergency withdraw: the stored admin moves `amount` of `token` out
    /// of custody to `to`, bypassing campaign bookkeeping entirely. This is
    /// the one operation that does not preserve conservation of funds; its
    /// safety rests on trust in the admin key.
    pub fn admin_withdraw(
        state: &mut ContractState,
        caller: AccountId,
        token: TokenId,
        amount: i128,
        to: AccountId,
    ) -> (r: Result<(), Error>)
        requires
            old(state).wf(),
        ensures
            final(state).wf(),
            r is Ok <==> old(state).admin == Some(caller) && amount >= 0 && old(
                state,
            ).ledger.spec_custody(token) >= amount && old(state).ledger.spec_balance(token, to)
                + amount <= i128::MAX,
            old(state).admin != Some(caller) ==> r == Err::<(), Error>(Error::NotAdmin),
            old(state).admin == Some(caller) && amount < 0 ==> r == Err::<(), Error>(
                Error::InvalidAmount,
            ),
            old(state).admin == Some(caller) && amount >= 0 && old(state).ledger.spec_custody(token)
                < amount ==> r == Err::<(), Error>(Error::TransferFailed),
            old(state).admin == Some(caller) && amount >= 0 && old(state).ledger.spec_custody(token)
                >= amount && old(state).ledger.spec_balance(token, to) + amount > i128::MAX ==> r
                == Err::<(), Error>(Error::ArithmeticOverflow),
            r is Ok ==> final(state).ledger.spec_custody(token) == old(state).ledger.spec_custody(
                token,
            ) - amount,
            r is Ok ==> final(state).ledger.spec_balance(token, to) == old(
                state,
            ).ledger.spec_balance(token, to) + amount,
            r is Ok ==> forall|t2: TokenId, o2: AccountId|
                !(t2 == token && o2 == to) ==> #[trigger] final(state).ledger.spec_balance(t2, o2)
                    == old(state).ledger.spec_balance(t2, o2),
            r is Ok ==> forall|t2: TokenId|
                t2 != token ==> #[trigger] final(state).ledger.spec_custody(t2) == old(
                    state,
                ).ledger.spec_custody(t2),
            r is Err ==> *final(state) == *old(state),
            final(state).giveaways == old(state).giveaways,
            final(state).entries == old(state).entries,
            final(state).requests == old(state).requests,
            final(state).admin == old(state).admin,
            final(state).paused == old(state).paused,
            final(state).id_counter == old(state).id_counter,
            final(state).request_counter == old(state).request_counter,
    {
        match state.admin {
            None => Err(Error::NotAdmin),
            Some(stored) => {
                if stored != caller {
                    Err(Error::NotAdmin)
                } else {
                    state.ledger.withdraw(token, to, amount)
                }
            },
        }
    }
}

} // verus!
