//! Funding a buyer's escrow account.
//!
//! The escrow account lives at an address derived from (marketplace,
//! depositor) and is created lazily on first deposit. On the native rail
//! every deposit first tops the account up to the minimum reserve before
//! adding the deposited amount, so later partial debits can never push it
//! below the reserve; the source must be the depositor's own address. On the
//! token rail the source must be the depositor's own associated token
//! account for the marketplace's currency.

use vstd::prelude::*;

use crate::addr::{Addr, NATIVE_MINT};
use crate::errors::MarketplaceError;
use crate::ledger::{
    spec_lamport_credit, spec_lamport_debit, spec_lamports_of, spec_token_credit, spec_token_debit,
    Ledger, credit_lamports, debit_lamports, credit_token, debit_token, lamport_balance,
    rent_checked_add,
};
use crate::states::TokenAccount;

verus! {

/// The top-up a native escrow balance needs to reach the minimum reserve.
pub open spec fn spec_reserve_topup(balance: u64, min_reserve: u64) -> int {
    if balance < min_reserve {
        min_reserve - balance
    } else {
        0
    }
}

/// The escrow token account created on first deposit: held by the
/// marketplace itself on behalf of the depositor.
pub open spec fn spec_fresh_escrow(market: Addr, treasury_mint: u64) -> TokenAccount {
    TokenAccount { authority: market, mint: treasury_mint, amount: 0, delegate: None }
}

impl Ledger {
    /// Deposits `amount` into the depositor's escrow for a marketplace,
    /// creating the escrow account when absent.
    pub fn deposit(&mut self, market: Addr, depositor: u64, payment_account: Addr, amount: u64) -> (r:
        Result<(), MarketplaceError>)
        requires
            old(self).wf(),
        ensures
            final(self).wf(),
            final(self).min_reserve == old(self).min_reserve,
            final(self).configs == old(self).configs,
            final(self).listings == old(self).listings,
            final(self).offers == old(self).offers,
            final(self).metadata == old(self).metadata,
            ({
                let known = old(self).configs@.contains_key(market);
                let c = old(self).configs@[market];
                let is_native = c.treasury_mint == NATIVE_MINT;
                let escrow = Addr::Escrow {
                    creator: c.creator,
                    treasury_mint: c.treasury_mint,
                    depositor,
                };
                let wallet = Addr::Key(depositor);
                let ebal = spec_lamports_of(old(self).lamports@, escrow);
                let total = spec_reserve_topup(ebal, old(self).min_reserve) + amount;
                let native_pay_ok = payment_account == wallet;
                let native_funds_ok = total <= u64::MAX && spec_lamports_of(
                    old(self).lamports@,
                    wallet,
                ) >= total && ebal + total <= u64::MAX;
                let t0 = if old(self).tokens@.contains_key(escrow) {
                    old(self).tokens@
                } else {
                    old(self).tokens@.insert(escrow, spec_fresh_escrow(market, c.treasury_mint))
                };
                let token_pay_ok = payment_account == (Addr::Ata {
                    wallet: depositor,
                    mint: c.treasury_mint,
                }) && old(self).tokens@.contains_key(payment_account)
                    && old(self).tokens@[payment_account].authority == wallet;
                let token_funds_ok = old(self).tokens@.contains_key(payment_account) ==> (old(
                    self,
                ).tokens@[payment_account].amount >= amount && t0[escrow].amount + amount
                    <= u64::MAX);
                let pay_ok = known && (if is_native {
                    native_pay_ok
                } else {
                    token_pay_ok
                });
                let funds_ok = if is_native {
                    native_funds_ok
                } else {
                    token_funds_ok
                };
                &&& (r is Ok <==> pay_ok && funds_ok)
                &&& match r {
                    Ok(()) => {
                        &&& if is_native {
                            &&& final(self).lamports@ == spec_lamport_credit(
                                spec_lamport_debit(old(self).lamports@, wallet, total as u64),
                                escrow,
                                total as u64,
                            )
                            &&& spec_lamports_of(final(self).lamports@, escrow) == ebal + total
                            &&& final(self).tokens == old(self).tokens
                        } else {
                            &&& final(self).tokens@ == spec_token_credit(
                                spec_token_debit(t0, payment_account, amount),
                                escrow,
                                spec_fresh_escrow(market, c.treasury_mint),
                                amount,
                            )
                            &&& final(self).tokens@[escrow].amount == t0[escrow].amount + amount
                            &&& final(self).lamports == old(self).lamports
                        }
                    },
                    Err(e) => {
                        &&& final(self).lamports == old(self).lamports
                        &&& final(self).tokens == old(self).tokens
                        &&& (e == MarketplaceError::InvalidAccountInput <==> !pay_ok)
                        &&& (e == MarketplaceError::NumericalOverflow <==> pay_ok && !funds_ok)
                    },
                }
            }),
    {
        let c = match self.configs.get(market) {
            Some(c) => *c,
            None => {
                return Err(MarketplaceError::InvalidAccountInput);
            },
        };
        let escrow = Addr::escrow_of(c.creator, c.treasury_mint, depositor);
        let wallet = Addr::Key(depositor);
        if c.treasury_mint == NATIVE_MINT {
            if payment_account != wallet {
                return Err(MarketplaceError::InvalidAccountInput);
            }
            let ebal = lamport_balance(&self.lamports, escrow);
            // top up to the reserve first, then add the amount
            let topup: u64 = match rent_checked_add(ebal, 0, self.min_reserve) {
                Ok(x) => x,
                Err(e) => {
                    return Err(e);
                },
            };
            if amount > u64::MAX - topup {
                return Err(MarketplaceError::NumericalOverflow);
            }
            let total = topup + amount;
            if lamport_balance(&self.lamports, wallet) < total {
                return Err(MarketplaceError::NumericalOverflow);
            }
            if ebal > u64::MAX - total {
                return Err(MarketplaceError::NumericalOverflow);
            }
            proof {
                assert(escrow != wallet);
            }
            let res = debit_lamports(&mut self.lamports, wallet, total, 0);
            proof {
                assert(res is Ok);
            }
            let res2 = credit_lamports(&mut self.lamports, escrow, total);
            proof {
                assert(res2 is Ok);
            }
            Ok(())
        } else {
            let want = Addr::ata_of(depositor, c.treasury_mint);
            if payment_account != want {
                return Err(MarketplaceError::InvalidAccountInput);
            }
            let pay: TokenAccount = match self.tokens.get(payment_account) {
                Some(x) => *x,
                None => {
                    return Err(MarketplaceError::InvalidAccountInput);
                },
            };
            if pay.authority != wallet {
                return Err(MarketplaceError::InvalidAccountInput);
            }
            if pay.amount < amount {
                return Err(MarketplaceError::NumericalOverflow);
            }
            let fresh = TokenAccount { authority: market, mint: c.treasury_mint, amount: 0, delegate: None };
            let ecur: u64 = match self.tokens.get(escrow) {
                Some(x) => x.amount,
                None => 0,
            };
            if ecur > u64::MAX - amount {
                return Err(MarketplaceError::NumericalOverflow);
            }
            proof {
                assert(escrow != payment_account);
            }
            if !self.tokens.contains(escrow) {
                self.tokens.put(escrow, fresh);
            }
            let res = debit_token(&mut self.tokens, payment_account, amount);
            proof {
                assert(res is Ok);
            }
            let res2 = credit_token(&mut self.tokens, escrow, fresh, amount);
            proof {
                assert(res2 is Ok);
            }
            Ok(())
        }
    }
}

} // verus!
