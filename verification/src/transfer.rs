//! Transfers of tokens between accounts.

use crate::account::{Account, AccountView};
use crate::error::PoolError;
use crate::math::{fits, law_covered_amount_buys_no_more_shares};
use crate::pool::{DiversifiedPool, PoolView};
use crate::store::storable_id;
use vstd::prelude::*;

verus! {

impl PoolView {
    /// Why a transfer of available funds is refused, if it is.
    pub open spec fn near_transfer_refusal(
        self,
        sender: Seq<char>,
        receiver: Seq<char>,
        amount: int,
    ) -> Option<PoolError> {
        if self.account(sender).available < amount {
            Some(PoolError::NotEnoughNear)
        } else if sender != receiver && !fits(self.account(receiver).available + amount) {
            Some(PoolError::Overflow)
        } else {
            None
        }
    }

    /// Why a transfer of staked tokens is refused, if it is.
    pub open spec fn skash_transfer_refusal(
        self,
        sender: Seq<char>,
        receiver: Seq<char>,
        amount: int,
    ) -> Option<PoolError> {
        let skash: int = self.value_of_stake_shares(self.account(sender).stake_shares);
        if !fits(skash) {
            Some(PoolError::Overflow)
        } else if skash < amount {
            Some(PoolError::NotEnoughSkash)
        } else if sender != receiver && !fits(
            self.account(receiver).stake_shares + self.stake_shares_worth(amount),
        ) {
            Some(PoolError::Overflow)
        } else {
            None
        }
    }

    /// Why a transfer of governance tokens is refused, if it is.
    pub open spec fn g_skash_transfer_refusal(
        self,
        sender: Seq<char>,
        receiver: Seq<char>,
        amount: int,
    ) -> Option<PoolError> {
        let sender_account: AccountView = self.account(sender);
        if !self.can_realize_g_skash(sender_account) {
            Some(PoolError::Overflow)
        } else if self.account_with_g_skash_realized(sender_account).realized_g_skash < amount {
            Some(PoolError::NotEnoughGSkash)
        } else if sender != receiver && !fits(self.account(receiver).realized_g_skash + amount) {
            Some(PoolError::Overflow)
        } else {
            None
        }
    }

    /// Why a transfer is refused, if it is.
    pub open spec fn transfer_refusal(
        self,
        sender: Seq<char>,
        receiver: Seq<char>,
        symbol: Seq<char>,
        amount: int,
    ) -> Option<PoolError> {
        if !self.accounts.contains_key(receiver) {
            Some(PoolError::UnknownReceiver)
        } else if symbol == "NEAR"@ {
            self.near_transfer_refusal(sender, receiver, amount)
        } else if symbol == "SKASH"@ {
            self.skash_transfer_refusal(sender, receiver, amount)
        } else if symbol == "G-SKASH"@ {
            self.g_skash_transfer_refusal(sender, receiver, amount)
        } else {
            Some(PoolError::InvalidSymbol)
        }
    }

    /// The pool after a transfer of available funds. One to oneself moves nothing.
    pub open spec fn after_near_transfer(
        self,
        sender: Seq<char>,
        receiver: Seq<char>,
        amount: int,
    ) -> PoolView {
        let from: AccountView = self.account(sender);
        let to: AccountView = self.account(receiver);
        if sender == receiver {
            self
        } else {
            self.with_account(
                sender,
                AccountView { available: from.available - amount, ..from },
            ).with_account(receiver, AccountView { available: to.available + amount, ..to })
        }
    }

    /// The pool after a transfer of staked tokens: the shares that the amount
    /// buys have moved. One to oneself moves nothing.
    pub open spec fn after_skash_transfer(
        self,
        sender: Seq<char>,
        receiver: Seq<char>,
        amount: int,
    ) -> PoolView {
        let from: AccountView = self.account(sender);
        let to: AccountView = self.account(receiver);
        let shares: int = self.stake_shares_worth(amount);
        if sender == receiver {
            self
        } else {
            self.with_account(
                sender,
                AccountView { stake_shares: from.stake_shares - shares, ..from },
            ).with_account(receiver, AccountView { stake_shares: to.stake_shares + shares, ..to })
        }
    }

    /// The pool after a transfer of governance tokens. The sender's pending ones
    /// are credited first. One to oneself does no more than that.
    pub open spec fn after_g_skash_transfer(
        self,
        sender: Seq<char>,
        receiver: Seq<char>,
        amount: int,
    ) -> PoolView {
        let from: AccountView = self.account_with_g_skash_realized(self.account(sender));
        let to: AccountView = self.account(receiver);
        let credited: PoolView = self.with_g_skash_realized(self.account(sender));
        if sender == receiver {
            credited.with_account(sender, from)
        } else {
            credited.with_account(
                sender,
                AccountView { realized_g_skash: from.realized_g_skash - amount, ..from },
            ).with_account(
                receiver,
                AccountView { realized_g_skash: to.realized_g_skash + amount, ..to },
            )
        }
    }

    /// The pool after a transfer.
    pub open spec fn after_transfer(
        self,
        sender: Seq<char>,
        receiver: Seq<char>,
        symbol: Seq<char>,
        amount: int,
    ) -> PoolView {
        if symbol == "NEAR"@ {
            self.after_near_transfer(sender, receiver, amount)
        } else if symbol == "SKASH"@ {
            self.after_skash_transfer(sender, receiver, amount)
        } else {
            self.after_g_skash_transfer(sender, receiver, amount)
        }
    }
}

impl DiversifiedPool {
    /// Transfers `am` of the token `symbol` from `sender_id` to `receiver_id`.
    /// The tokens are `NEAR` (available funds), `SKASH` (staked tokens) and
    /// `G-SKASH` (governance tokens).
    ///
    /// The receiver's account must exist. A transfer to oneself moves nothing.
    pub fn internal_multifuntok_transfer(
        &mut self,
        sender_id: &String,
        receiver_id: &String,
        symbol: &String,
        am: u128,
    ) -> (res: Result<(), PoolError>)
        requires
            storable_id(sender_id@),
            storable_id(receiver_id@),
        ensures
            match old(self)@.transfer_refusal(sender_id@, receiver_id@, symbol@, am as int) {
                None => res is Ok && final(self)@ == old(self)@.after_transfer(
                    sender_id@,
                    receiver_id@,
                    symbol@,
                    am as int,
                ),
                Some(e) => res == Err::<(), PoolError>(e) && final(self)@ == old(self)@,
            },
    {
        let mut receiver_acc: Account = match self.find_account(receiver_id) {
            Some(account) => account,
            None => return Err(PoolError::UnknownReceiver),
        };
        let mut sender_acc: Account = self.internal_get_account(sender_id);
        let to_oneself: bool = *sender_id == *receiver_id;
        if *symbol == "NEAR".to_owned() {
            if sender_acc.available < am {
                return Err(PoolError::NotEnoughNear);
            }
            if to_oneself {
                return Ok(());
            }
            receiver_acc.available = match receiver_acc.available.checked_add(am) {
                Some(sum) => sum,
                None => return Err(PoolError::Overflow),
            };
            sender_acc.available = sender_acc.available - am;
        } else if *symbol == "SKASH".to_owned() {
            let skash: u128 = self.amount_from_stake_shares(sender_acc.stake_shares)?;
            if skash < am {
                return Err(PoolError::NotEnoughSkash);
            }
            if to_oneself {
                return Ok(());
            }
            proof {
                law_covered_amount_buys_no_more_shares(
                    am as int,
                    sender_acc.stake_shares as int,
                    self.total_for_staking as int,
                    self.total_stake_shares as int,
                );
            }
            let shares: u128 = self.stake_shares_from_amount(am)?;
            receiver_acc.stake_shares = match receiver_acc.stake_shares.checked_add(shares) {
                Some(sum) => sum,
                None => return Err(PoolError::Overflow),
            };
            sender_acc.stake_shares = sender_acc.stake_shares - shares;
        } else if *symbol == "G-SKASH".to_owned() {
            let total_g_skash: u128 = self.total_g_skash;
            sender_acc.stake_realize_g_skash(self)?;
            if sender_acc.realized_g_skash < am {
                self.total_g_skash = total_g_skash;
                return Err(PoolError::NotEnoughGSkash);
            }
            if to_oneself {
                self.internal_update_account(sender_id, &sender_acc);
                return Ok(());
            }
            receiver_acc.realized_g_skash = match receiver_acc.realized_g_skash.checked_add(am) {
                Some(sum) => sum,
                None => {
                    self.total_g_skash = total_g_skash;
                    return Err(PoolError::Overflow);
                },
            };
            sender_acc.realized_g_skash = sender_acc.realized_g_skash - am;
        } else {
            return Err(PoolError::InvalidSymbol);
        }
        self.internal_update_account(sender_id, &sender_acc);
        self.internal_update_account(receiver_id, &receiver_acc);
        Ok(())
    }
}

} // verus!
