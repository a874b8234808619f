//! Marketplace configuration: creation, authority-gated updates, and
//! treasury withdrawal.

use vstd::prelude::*;

use crate::addr::{Addr, NATIVE_MINT};
use crate::errors::MarketplaceError;
use crate::ledger::{
    spec_lamport_credit, spec_lamport_credit_ok, spec_lamport_debit, spec_lamports_of,
    spec_token_credit, spec_token_debit, wf_config, Ledger, credit_lamports, debit_lamports,
    credit_token, debit_token, lamport_balance,
};
use crate::states::{AuctionHouse, TokenAccount};

verus! {

/// Whether a supplied treasury-withdrawal destination is acceptable for a
/// marketplace trading in `treasury_mint`: on the native rail it must be the
/// owner's own address, on the token rail it must be the owner's associated
/// token account for the currency, and if that account already exists it must
/// be owned by the destination owner.
pub open spec fn spec_dest_ok(
    tokens: Map<Addr, TokenAccount>,
    dest: Addr,
    dest_owner: u64,
    treasury_mint: u64,
) -> bool {
    if treasury_mint == NATIVE_MINT {
        dest == Addr::Key(dest_owner)
    } else {
        &&& dest == (Addr::Ata { wallet: dest_owner, mint: treasury_mint })
        &&& (tokens.contains_key(dest) ==> tokens[dest].authority == Addr::Key(dest_owner))
    }
}

/// The token store after the destination account has been created when
/// absent (token rail only; the native rail creates nothing).
pub open spec fn spec_dest_created(
    tokens: Map<Addr, TokenAccount>,
    dest: Addr,
    dest_owner: u64,
    treasury_mint: u64,
) -> Map<Addr, TokenAccount> {
    if treasury_mint == NATIVE_MINT || tokens.contains_key(dest) {
        tokens
    } else {
        tokens.insert(dest, TokenAccount::spec_fresh_ata(dest_owner, treasury_mint))
    }
}

/// The configuration record written by `create_auction_house`.
pub open spec fn spec_new_config(
    authority: u64,
    treasury_mint: u64,
    dest: Addr,
    seller_fee_basis_points: u16,
    discount_collection: u64,
    discount_basis_points: u16,
) -> AuctionHouse {
    AuctionHouse {
        auction_house_treasury: Addr::Treasury { creator: authority, treasury_mint },
        treasury_withdrawal_destination: dest,
        treasury_mint,
        authority,
        creator: authority,
        seller_fee_basis_points,
        discount_collection,
        discount_basis_points,
    }
}

/// The token store after `create_auction_house`: a treasury token account is
/// created when the marketplace trades in a token and has none yet, and the
/// destination account is created when absent.
pub open spec fn spec_create_tokens(
    tokens: Map<Addr, TokenAccount>,
    authority: u64,
    treasury_mint: u64,
    dest: Addr,
    dest_owner: u64,
) -> Map<Addr, TokenAccount> {
    let treasury = Addr::Treasury { creator: authority, treasury_mint };
    let with_treasury = if treasury_mint == NATIVE_MINT || tokens.contains_key(treasury) {
        tokens
    } else {
        tokens.insert(
            treasury,
            TokenAccount {
                authority: Addr::Marketplace { creator: authority, treasury_mint },
                mint: treasury_mint,
                amount: 0,
                delegate: None,
            },
        )
    };
    spec_dest_created(with_treasury, dest, dest_owner, treasury_mint)
}

/// The configuration record after `update_auction_house`.
pub open spec fn spec_updated_config(
    c: AuctionHouse,
    seller_fee_basis_points: Option<u16>,
    discount_collection: Option<u64>,
    discount_basis_points: Option<u16>,
    new_authority: u64,
    dest: Addr,
) -> AuctionHouse {
    AuctionHouse {
        treasury_withdrawal_destination: dest,
        authority: new_authority,
        seller_fee_basis_points: spec_opt_or(seller_fee_basis_points, c.seller_fee_basis_points),
        discount_collection: spec_opt_or(discount_collection, c.discount_collection),
        discount_basis_points: spec_opt_or(discount_basis_points, c.discount_basis_points),
        ..c
    }
}

/// An option's value, or a default when it is absent.
pub open spec fn spec_opt_or<T>(o: Option<T>, d: T) -> T {
    match o {
        Some(v) => v,
        None => d,
    }
}

impl Ledger {
    /// Creates a marketplace: checks the fee bounds, initializes the
    /// configuration at its derived address, creates the treasury token
    /// account (token rail), and establishes the withdrawal destination.
    ///
    /// The caller-supplied `authority` becomes both the marketplace's
    /// creator (fixing its derived address) and its initial authority.
    pub fn create_auction_house(
        &mut self,
        authority: u64,
        treasury_mint: u64,
        treasury_withdrawal_destination: Addr,
        treasury_withdrawal_destination_owner: u64,
        seller_fee_basis_points: u16,
        discount_collection: u64,
        discount_basis_points: u16,
    ) -> (r: Result<Addr, MarketplaceError>)
        requires
            old(self).wf(),
        ensures
            final(self).wf(),
            final(self).min_reserve == old(self).min_reserve,
            final(self).lamports == old(self).lamports,
            final(self).listings == old(self).listings,
            final(self).offers == old(self).offers,
            final(self).metadata == old(self).metadata,
            ({
                let market = Addr::Marketplace { creator: authority, treasury_mint };
                let bps_ok = seller_fee_basis_points <= 10000 && discount_basis_points
                    <= seller_fee_basis_points;
                let fresh = !old(self).configs@.contains_key(market);
                let dest_ok = spec_dest_ok(
                    old(self).tokens@,
                    treasury_withdrawal_destination,
                    treasury_withdrawal_destination_owner,
                    treasury_mint,
                );
                &&& (r is Ok <==> bps_ok && fresh && dest_ok)
                &&& match r {
                    Ok(a) => {
                        &&& a == market
                        &&& final(self).configs@ == old(self).configs@.insert(
                            market,
                            spec_new_config(
                                authority,
                                treasury_mint,
                                treasury_withdrawal_destination,
                                seller_fee_basis_points,
                                discount_collection,
                                discount_basis_points,
                            ),
                        )
                        &&& final(self).tokens@ == spec_create_tokens(
                            old(self).tokens@,
                            authority,
                            treasury_mint,
                            treasury_withdrawal_destination,
                            treasury_withdrawal_destination_owner,
                        )
                    },
                    Err(e) => {
                        &&& final(self).configs == old(self).configs
                        &&& final(self).tokens == old(self).tokens
                        &&& (e == MarketplaceError::InvalidAmount <==> !bps_ok)
                        &&& (e == MarketplaceError::AlreadyInUse <==> bps_ok && !fresh)
                        &&& (e == MarketplaceError::InvalidPubkey <==> bps_ok && fresh && !dest_ok)
                    },
                }
            }),
    {
        if seller_fee_basis_points > 10000 || discount_basis_points > seller_fee_basis_points {
            return Err(MarketplaceError::InvalidAmount);
        }
        let market = Addr::marketplace(authority, treasury_mint);
        if self.configs.contains(market) {
            return Err(MarketplaceError::AlreadyInUse);
        }
        let is_native = treasury_mint == NATIVE_MINT;
        if is_native {
            if treasury_withdrawal_destination
                != (Addr::Key(treasury_withdrawal_destination_owner)) {
                return Err(MarketplaceError::InvalidPubkey);
            }
        } else {
            let want = Addr::ata_of(treasury_withdrawal_destination_owner, treasury_mint);
            if treasury_withdrawal_destination != want {
                return Err(MarketplaceError::InvalidPubkey);
            }
            match self.tokens.get(want) {
                Some(acct) => {
                    if acct.authority != (Addr::Key(treasury_withdrawal_destination_owner)) {
                        return Err(MarketplaceError::InvalidPubkey);
                    }
                },
                None => (),
            }
        }
        // every check has passed: stage the new accounts
        if !is_native {
            let treasury = Addr::treasury_of(authority, treasury_mint);
            if !self.tokens.contains(treasury) {
                self.tokens.put(
                    treasury,
                    TokenAccount {
                        authority: market,
                        mint: treasury_mint,
                        amount: 0,
                        delegate: None,
                    },
                );
            }
            if !self.tokens.contains(treasury_withdrawal_destination) {
                self.tokens.put(
                    treasury_withdrawal_destination,
                    TokenAccount::fresh_ata(treasury_withdrawal_destination_owner, treasury_mint),
                );
            }
        }
        self.configs.put(
            market,
            AuctionHouse {
                auction_house_treasury: Addr::treasury_of(authority, treasury_mint),
                treasury_withdrawal_destination,
                treasury_mint,
                authority,
                creator: authority,
                seller_fee_basis_points,
                discount_collection,
                discount_basis_points,
            },
        );
        Ok(market)
    }

    /// Updates a marketplace's fee rates, discount collection, authority and
    /// withdrawal destination. Only the current authority may call it, and
    /// the fee bounds are re-checked against the updated values.
    pub fn update_auction_house(
        &mut self,
        market: Addr,
        signer: u64,
        new_authority: u64,
        seller_fee_basis_points: Option<u16>,
        discount_collection: Option<u64>,
        discount_basis_points: Option<u16>,
        treasury_withdrawal_destination: Addr,
        treasury_withdrawal_destination_owner: u64,
    ) -> (r: Result<(), MarketplaceError>)
        requires
            old(self).wf(),
        ensures
            final(self).wf(),
            final(self).min_reserve == old(self).min_reserve,
            final(self).lamports == old(self).lamports,
            final(self).listings == old(self).listings,
            final(self).offers == old(self).offers,
            final(self).metadata == old(self).metadata,
            ({
                let known = old(self).configs@.contains_key(market);
                let c = old(self).configs@[market];
                let c2 = spec_updated_config(
                    c,
                    seller_fee_basis_points,
                    discount_collection,
                    discount_basis_points,
                    new_authority,
                    treasury_withdrawal_destination,
                );
                let authorized = known && signer == c.authority;
                let bps_ok = c2.seller_fee_basis_points <= 10000 && c2.discount_basis_points
                    <= c2.seller_fee_basis_points;
                let dest_ok = known && spec_dest_ok(
                    old(self).tokens@,
                    treasury_withdrawal_destination,
                    treasury_withdrawal_destination_owner,
                    c.treasury_mint,
                );
                &&& (r is Ok <==> authorized && bps_ok && dest_ok)
                &&& match r {
                    Ok(()) => {
                        &&& final(self).configs@ == old(self).configs@.insert(market, c2)
                        &&& final(self).tokens@ == spec_dest_created(
                            old(self).tokens@,
                            treasury_withdrawal_destination,
                            treasury_withdrawal_destination_owner,
                            c.treasury_mint,
                        )
                    },
                    Err(e) => {
                        &&& final(self).configs == old(self).configs
                        &&& final(self).tokens == old(self).tokens
                        &&& (e == MarketplaceError::InvalidAccountInput <==> !known)
                        &&& (e == MarketplaceError::Unauthorized <==> known && !authorized)
                        &&& (e == MarketplaceError::InvalidAmount <==> authorized && !bps_ok)
                        &&& (e == MarketplaceError::InvalidPubkey <==> authorized && bps_ok
                            && !dest_ok)
                    },
                }
            }),
    {
        let c: AuctionHouse = match self.configs.get(market) {
            Some(c) => *c,
            None => {
                return Err(MarketplaceError::InvalidAccountInput);
            },
        };
        if signer != c.authority {
            return Err(MarketplaceError::Unauthorized);
        }
        let fee = match seller_fee_basis_points {
            Some(f) => f,
            None => c.seller_fee_basis_points,
        };
        let discount = match discount_basis_points {
            Some(d) => d,
            None => c.discount_basis_points,
        };
        if fee > 10000 || discount > fee {
            return Err(MarketplaceError::InvalidAmount);
        }
        let collection = match discount_collection {
            Some(x) => x,
            None => c.discount_collection,
        };
        let is_native = c.treasury_mint == NATIVE_MINT;
        if is_native {
            if treasury_withdrawal_destination
                != (Addr::Key(treasury_withdrawal_destination_owner)) {
                return Err(MarketplaceError::InvalidPubkey);
            }
        } else {
            let want = Addr::ata_of(treasury_withdrawal_destination_owner, c.treasury_mint);
            if treasury_withdrawal_destination != want {
                return Err(MarketplaceError::InvalidPubkey);
            }
            match self.tokens.get(want) {
                Some(acct) => {
                    if acct.authority != (Addr::Key(treasury_withdrawal_destination_owner)) {
                        return Err(MarketplaceError::InvalidPubkey);
                    }
                },
                None => {
                    self.tokens.put(
                        want,
                        TokenAccount::fresh_ata(
                            treasury_withdrawal_destination_owner,
                            c.treasury_mint,
                        ),
                    );
                },
            }
        }
        self.configs.put(
            market,
            AuctionHouse {
                treasury_withdrawal_destination,
                authority: new_authority,
                seller_fee_basis_points: fee,
                discount_collection: collection,
                discount_basis_points: discount,
                ..c
            },
        );
        Ok(())
    }

    /// Withdraws `amount` from the marketplace treasury to the configured
    /// withdrawal destination. Only the authority may call it.
    pub fn withdraw_from_treasury(&mut self, market: Addr, signer: u64, amount: u64) -> (r: Result<
        (),
        MarketplaceError,
    >)
        requires
            old(self).wf(),
        ensures
            final(self).wf(),
            final(self).min_reserve == old(self).min_reserve,
            final(self).configs == old(self).configs,
            final(self).listings == old(self).listings,
            final(self).offers == old(self).offers,
            final(self).metadata == old(self).metadata,
            ({
                let known = old(self).configs@.contains_key(market);
                let c = old(self).configs@[market];
                let treasury = c.auction_house_treasury;
                let dest = c.treasury_withdrawal_destination;
                let authorized = known && signer == c.authority;
                let funds_ok = if c.treasury_mint == NATIVE_MINT {
                    spec_lamports_of(old(self).lamports@, treasury) >= amount && spec_lamports_of(
                        old(self).lamports@,
                        dest,
                    ) + amount <= u64::MAX
                } else {
                    old(self).tokens@.contains_key(treasury) && old(self).tokens@.contains_key(dest)
                        && old(self).tokens@[treasury].amount >= amount
                        && old(self).tokens@[dest].amount + amount <= u64::MAX
                };
                &&& (r is Ok <==> authorized && funds_ok)
                &&& match r {
                    Ok(()) => {
                        &&& if c.treasury_mint == NATIVE_MINT {
                            &&& spec_lamports_of(old(self).lamports@, treasury) >= amount
                            &&& spec_lamport_credit_ok(
                                spec_lamport_debit(old(self).lamports@, treasury, amount),
                                dest,
                                amount,
                            )
                            &&& final(self).lamports@ == spec_lamport_credit(
                                spec_lamport_debit(old(self).lamports@, treasury, amount),
                                dest,
                                amount,
                            )
                            &&& final(self).tokens == old(self).tokens
                        } else {
                            &&& old(self).tokens@.contains_key(treasury)
                            &&& old(self).tokens@[treasury].amount >= amount
                            &&& old(self).tokens@.contains_key(dest)
                            &&& old(self).tokens@[dest].amount + amount <= u64::MAX
                            &&& final(self).tokens@ == spec_token_credit(
                                spec_token_debit(old(self).tokens@, treasury, amount),
                                dest,
                                old(self).tokens@[dest],
                                amount,
                            )
                            &&& final(self).lamports == old(self).lamports
                        }
                    },
                    Err(e) => {
                        &&& final(self).lamports == old(self).lamports
                        &&& final(self).tokens == old(self).tokens
                        &&& (e == MarketplaceError::InvalidAccountInput ==> !known || (
                        c.treasury_mint != NATIVE_MINT && !(old(self).tokens@.contains_key(treasury)
                            && old(self).tokens@.contains_key(dest))))
                        &&& (e == MarketplaceError::Unauthorized <==> known && !authorized)
                        &&& (e == MarketplaceError::NumericalOverflow ==> authorized)
                    },
                }
            }),
    {
        let c: AuctionHouse = match self.configs.get(market) {
            Some(c) => *c,
            None => {
                return Err(MarketplaceError::InvalidAccountInput);
            },
        };
        if signer != c.authority {
            return Err(MarketplaceError::Unauthorized);
        }
        let treasury = c.auction_house_treasury;
        let dest = c.treasury_withdrawal_destination;
        if c.treasury_mint == NATIVE_MINT {
            let tbal = lamport_balance(&self.lamports, treasury);
            if tbal < amount {
                return Err(MarketplaceError::NumericalOverflow);
            }
            let dbal = lamport_balance(&self.lamports, dest);
            proof {
                assert(treasury != dest) by {
                    assert(wf_config(market, c));
                }
            }
            if dbal > u64::MAX - amount {
                return Err(MarketplaceError::NumericalOverflow);
            }
            let res = debit_lamports(&mut self.lamports, treasury, amount, 0);
            proof {
                assert(res is Ok);
            }
            let res2 = credit_lamports(&mut self.lamports, dest, amount);
            proof {
                assert(res2 is Ok);
            }
            Ok(())
        } else {
            let tacct: TokenAccount = match self.tokens.get(treasury) {
                Some(x) => *x,
                None => {
                    return Err(MarketplaceError::InvalidAccountInput);
                },
            };
            let dacct: TokenAccount = match self.tokens.get(dest) {
                Some(x) => *x,
                None => {
                    return Err(MarketplaceError::InvalidAccountInput);
                },
            };
            if tacct.amount < amount {
                return Err(MarketplaceError::NumericalOverflow);
            }
            proof {
                assert(treasury != dest) by {
                    assert(wf_config(market, c));
                }
            }
            if dacct.amount > u64::MAX - amount {
                return Err(MarketplaceError::NumericalOverflow);
            }
            let res = debit_token(&mut self.tokens, treasury, amount);
            proof {
                assert(res is Ok);
            }
            let res2 = credit_token(&mut self.tokens, dest, dacct, amount);
            proof {
                assert(res2 is Ok);
            }
            Ok(())
        }
    }
}

} // verus!
