//! The listing/offer ledger: per-asset listings and per-(asset, buyer)
//! offers, with create/update/close transitions.
//!
//! A record is created on first use: the first `list` for an asset moves
//! custody of the asset to the protocol vault and deposits the record's
//! minimum reserve; any later `list` on the active record updates only price
//! and expiry and never re-transfers custody. Offers behave the same without
//! custody. The expiry policy is literal: `unlisting` and `cancel_buy` are
//! permitted only when the record's expiry is unset (`0`) or already past, so
//! a record with a future expiry cannot be cancelled until it expires.

use vstd::prelude::*;

use crate::addr::Addr;
use crate::errors::MarketplaceError;
use crate::ledger::{
    spec_lamport_credit, spec_lamport_debit, spec_lamports_of, Ledger, credit_lamports,
    debit_lamports, lamport_balance,
};
use crate::states::{ListingAccount, OfferAccount, TokenAccount};

verus! {

/// The expiry value stored for a requested expiry: `0` when none was asked
/// for.
pub open spec fn spec_stored_expiry(requested: Option<u64>) -> u64 {
    match requested {
        Some(e) => e,
        None => 0,
    }
}

/// A requested expiry is acceptable when absent or not yet past.
pub open spec fn spec_expiry_ok(requested: Option<u64>, now: u64) -> bool {
    match requested {
        Some(e) => e >= now,
        None => true,
    }
}

/// The literal cancellation policy: a record may be closed only when it
/// never had an expiry or its expiry already lies in the past.
pub open spec fn spec_cancellable(expiry: u64, now: u64) -> bool {
    expiry == 0 || expiry < now
}

impl Ledger {
    /// Lists an asset for sale, or updates an active listing's price and
    /// expiry. The first call moves custody of the asset (the whole balance
    /// of `nft_account`, which must be owned by the seller) to the protocol
    /// vault by handing the account to the marketplace treasury, and deposits
    /// the record reserve from the seller's wallet.
    pub fn list(
        &mut self,
        market: Addr,
        seller: u64,
        nft_mint: u64,
        nft_account: Addr,
        price: u64,
        seller_expiry: Option<u64>,
        now: u64,
    ) -> (r: Result<(), MarketplaceError>)
        requires
            old(self).wf(),
        ensures
            final(self).wf(),
            final(self).min_reserve == old(self).min_reserve,
            final(self).configs == old(self).configs,
            final(self).offers == old(self).offers,
            final(self).metadata == old(self).metadata,
            ({
                let key = Addr::ListingRecord { nft_mint };
                let treasury = old(self).configs@[market].auction_house_treasury;
                let expiry_ok = spec_expiry_ok(seller_expiry, now);
                let known = old(self).configs@.contains_key(market);
                let has_nft = old(self).tokens@.contains_key(nft_account);
                let mint_ok = has_nft && old(self).tokens@[nft_account].mint == nft_mint;
                let amount_ok = has_nft && old(self).tokens@[nft_account].amount >= 1;
                let price_ok = price >= 1;
                let first = !old(self).listings@.contains_key(key);
                let custody_ok = has_nft && old(self).tokens@[nft_account].authority == (
                Addr::Key(seller));
                let reserve_ok = spec_lamports_of(old(self).lamports@, Addr::Key(seller)) >= old(
                    self,
                ).min_reserve;
                let owner_ok = !first && old(self).listings@[key].owner == seller;
                let rec = ListingAccount {
                    owner: seller,
                    nft_mint,
                    price,
                    expiry: spec_stored_expiry(seller_expiry),
                };
                &&& (r is Ok <==> expiry_ok && known && mint_ok && amount_ok && price_ok && (if first {
                    custody_ok && reserve_ok
                } else {
                    owner_ok
                }))
                &&& match r {
                    Ok(()) => {
                        &&& if first {
                            &&& final(self).listings@ == old(self).listings@.insert(key, rec)
                            &&& final(self).tokens@ == old(self).tokens@.insert(
                                nft_account,
                                TokenAccount {
                                    authority: treasury,
                                    ..old(self).tokens@[nft_account]
                                },
                            )
                            &&& final(self).lamports@ == spec_lamport_debit(
                                old(self).lamports@,
                                Addr::Key(seller),
                                old(self).min_reserve,
                            )
                        } else {
                            &&& final(self).listings@ == old(self).listings@.insert(
                                key,
                                ListingAccount {
                                    price,
                                    expiry: spec_stored_expiry(seller_expiry),
                                    ..old(self).listings@[key]
                                },
                            )
                            &&& final(self).tokens == old(self).tokens
                            &&& final(self).lamports == old(self).lamports
                        }
                    },
                    Err(e) => {
                        &&& final(self).listings == old(self).listings
                        &&& final(self).tokens == old(self).tokens
                        &&& final(self).lamports == old(self).lamports
                        &&& (e == MarketplaceError::InvalidExpiry <==> !expiry_ok)
                        &&& (e == MarketplaceError::InvalidAccountInput <==> expiry_ok && !(known
                            && has_nft))
                        &&& (e == MarketplaceError::InvalidPubkey <==> expiry_ok && known && has_nft
                            && !mint_ok)
                        &&& (e == MarketplaceError::InvalidAmount <==> expiry_ok && known && mint_ok
                            && !(amount_ok && price_ok))
                        &&& (e == MarketplaceError::InvalidOwner <==> expiry_ok && known && mint_ok
                            && amount_ok && price_ok && first && !custody_ok)
                        &&& (e == MarketplaceError::NumericalOverflow <==> expiry_ok && known
                            && mint_ok && amount_ok && price_ok && first && custody_ok
                            && !reserve_ok)
                        &&& (e == MarketplaceError::Unauthorized <==> expiry_ok && known && mint_ok
                            && amount_ok && price_ok && !first && !owner_ok)
                    },
                }
            }),
    {
        let expiry: u64 = match seller_expiry {
            Some(e) => {
                if e < now {
                    return Err(MarketplaceError::InvalidExpiry);
                }
                e
            },
            None => 0,
        };
        let c = match self.configs.get(market) {
            Some(c) => *c,
            None => {
                return Err(MarketplaceError::InvalidAccountInput);
            },
        };
        let nft: TokenAccount = match self.tokens.get(nft_account) {
            Some(x) => *x,
            None => {
                return Err(MarketplaceError::InvalidAccountInput);
            },
        };
        if nft.mint != nft_mint {
            return Err(MarketplaceError::InvalidPubkey);
        }
        if nft.amount < 1 || price < 1 {
            return Err(MarketplaceError::InvalidAmount);
        }
        let key = Addr::ListingRecord { nft_mint };
        match self.listings.get(key) {
            None => {
                // first use: move custody to the vault and create the record
                if nft.authority != (Addr::Key(seller)) {
                    return Err(MarketplaceError::InvalidOwner);
                }
                let reserve = self.min_reserve;
                match debit_lamports(&mut self.lamports, Addr::Key(seller), reserve, 0) {
                    Ok(()) => (),
                    Err(e) => {
                        return Err(e);
                    },
                }
                self.tokens.put(nft_account, TokenAccount { authority: c.auction_house_treasury, ..nft });
                self.listings.put(key, ListingAccount { owner: seller, nft_mint, price, expiry });
                Ok(())
            },
            Some(rec) => {
                let rec = *rec;
                if rec.owner != seller {
                    return Err(MarketplaceError::Unauthorized);
                }
                self.listings.put(key, ListingAccount { price, expiry, ..rec });
                Ok(())
            },
        }
    }

    /// Closes a listing once the expiry policy permits: custody of the asset
    /// returns to the owner, the record is removed entirely, and its reserve
    /// is returned to the owner's wallet.
    pub fn unlisting(
        &mut self,
        market: Addr,
        seller: u64,
        nft_mint: u64,
        nft_account: Addr,
        now: u64,
    ) -> (r: Result<(), MarketplaceError>)
        requires
            old(self).wf(),
        ensures
            final(self).wf(),
            final(self).min_reserve == old(self).min_reserve,
            final(self).configs == old(self).configs,
            final(self).offers == old(self).offers,
            final(self).metadata == old(self).metadata,
            ({
                let key = Addr::ListingRecord { nft_mint };
                let treasury = old(self).configs@[market].auction_house_treasury;
                let known = old(self).configs@.contains_key(market);
                let listed = old(self).listings@.contains_key(key);
                let owner_ok = listed && old(self).listings@[key].owner == seller;
                let can_cancel = listed && spec_cancellable(old(self).listings@[key].expiry, now);
                let has_nft = old(self).tokens@.contains_key(nft_account);
                let mint_ok = has_nft && old(self).tokens@[nft_account].mint == nft_mint;
                let custody_ok = has_nft && old(self).tokens@[nft_account].authority == treasury;
                let refund_ok = spec_lamports_of(old(self).lamports@, Addr::Key(seller)) + old(
                    self,
                ).min_reserve <= u64::MAX;
                &&& (r is Ok <==> known && listed && owner_ok && can_cancel && mint_ok && custody_ok
                    && refund_ok)
                &&& match r {
                    Ok(()) => {
                        &&& final(self).listings@ == old(self).listings@.remove(key)
                        &&& final(self).tokens@ == old(self).tokens@.insert(
                            nft_account,
                            TokenAccount {
                                authority: Addr::Key(seller),
                                ..old(self).tokens@[nft_account]
                            },
                        )
                        &&& final(self).lamports@ == spec_lamport_credit(
                            old(self).lamports@,
                            Addr::Key(seller),
                            old(self).min_reserve,
                        )
                    },
                    Err(e) => {
                        &&& final(self).listings == old(self).listings
                        &&& final(self).tokens == old(self).tokens
                        &&& final(self).lamports == old(self).lamports
                        &&& (e == MarketplaceError::InvalidAccountInput <==> !(known && listed && (
                        !owner_ok || !can_cancel || has_nft)))
                        &&& (e == MarketplaceError::Unauthorized <==> known && listed && !owner_ok)
                        &&& (e == MarketplaceError::InvalidExpiry <==> known && listed && owner_ok
                            && !can_cancel)
                        &&& (e == MarketplaceError::InvalidPubkey <==> known && listed && owner_ok
                            && can_cancel && has_nft && !mint_ok)
                        &&& (e == MarketplaceError::InvalidOwner <==> known && listed && owner_ok
                            && can_cancel && mint_ok && !custody_ok)
                        &&& (e == MarketplaceError::NumericalOverflow <==> known && listed
                            && owner_ok && can_cancel && mint_ok && custody_ok && !refund_ok)
                    },
                }
            }),
    {
        let c = match self.configs.get(market) {
            Some(c) => *c,
            None => {
                return Err(MarketplaceError::InvalidAccountInput);
            },
        };
        let key = Addr::ListingRecord { nft_mint };
        let rec: ListingAccount = match self.listings.get(key) {
            Some(x) => *x,
            None => {
                return Err(MarketplaceError::InvalidAccountInput);
            },
        };
        if rec.owner != seller {
            return Err(MarketplaceError::Unauthorized);
        }
        if !(rec.expiry == 0 || rec.expiry < now) {
            return Err(MarketplaceError::InvalidExpiry);
        }
        let nft: TokenAccount = match self.tokens.get(nft_account) {
            Some(x) => *x,
            None => {
                return Err(MarketplaceError::InvalidAccountInput);
            },
        };
        if nft.mint != nft_mint {
            return Err(MarketplaceError::InvalidPubkey);
        }
        if nft.authority != c.auction_house_treasury {
            return Err(MarketplaceError::InvalidOwner);
        }
        let reserve = self.min_reserve;
        if lamport_balance(&self.lamports, Addr::Key(seller)) > u64::MAX - reserve {
            return Err(MarketplaceError::NumericalOverflow);
        }
        self.tokens.put(nft_account, TokenAccount { authority: Addr::Key(seller), ..nft });
        self.listings.delete(key);
        let res = credit_lamports(&mut self.lamports, Addr::Key(seller), reserve);
        proof {
            assert(res is Ok);
        }
        Ok(())
    }

    /// Places an offer for an asset, or updates an active offer's price and
    /// expiry. The first call deposits the record reserve from the buyer's
    /// wallet.
    pub fn buy(
        &mut self,
        market: Addr,
        buyer: u64,
        nft_mint: u64,
        price: u64,
        buyer_expiry: Option<u64>,
        now: u64,
    ) -> (r: Result<(), MarketplaceError>)
        requires
            old(self).wf(),
        ensures
            final(self).wf(),
            final(self).min_reserve == old(self).min_reserve,
            final(self).configs == old(self).configs,
            final(self).listings == old(self).listings,
            final(self).tokens == old(self).tokens,
            final(self).metadata == old(self).metadata,
            ({
                let key = Addr::OfferRecord { nft_mint, buyer };
                let expiry_ok = spec_expiry_ok(buyer_expiry, now);
                let known = old(self).configs@.contains_key(market);
                let first = !old(self).offers@.contains_key(key);
                let reserve_ok = spec_lamports_of(old(self).lamports@, Addr::Key(buyer)) >= old(
                    self,
                ).min_reserve;
                let rec = OfferAccount {
                    buyer,
                    nft_mint,
                    price,
                    expiry: spec_stored_expiry(buyer_expiry),
                };
                &&& (r is Ok <==> expiry_ok && known && (first ==> reserve_ok))
                &&& match r {
                    Ok(()) => {
                        &&& if first {
                            &&& final(self).offers@ == old(self).offers@.insert(key, rec)
                            &&& final(self).lamports@ == spec_lamport_debit(
                                old(self).lamports@,
                                Addr::Key(buyer),
                                old(self).min_reserve,
                            )
                        } else {
                            &&& final(self).offers@ == old(self).offers@.insert(
                                key,
                                OfferAccount {
                                    price,
                                    expiry: spec_stored_expiry(buyer_expiry),
                                    ..old(self).offers@[key]
                                },
                            )
                            &&& final(self).lamports == old(self).lamports
                        }
                    },
                    Err(e) => {
                        &&& final(self).offers == old(self).offers
                        &&& final(self).lamports == old(self).lamports
                        &&& (e == MarketplaceError::InvalidExpiry <==> !expiry_ok)
                        &&& (e == MarketplaceError::InvalidAccountInput <==> expiry_ok && !known)
                        &&& (e == MarketplaceError::NumericalOverflow <==> expiry_ok && known
                            && first && !reserve_ok)
                    },
                }
            }),
    {
        let expiry: u64 = match buyer_expiry {
            Some(e) => {
                if e < now {
                    return Err(MarketplaceError::InvalidExpiry);
                }
                e
            },
            None => 0,
        };
        if !self.configs.contains(market) {
            return Err(MarketplaceError::InvalidAccountInput);
        }
        let key = Addr::OfferRecord { nft_mint, buyer };
        match self.offers.get(key) {
            None => {
                let reserve = self.min_reserve;
                match debit_lamports(&mut self.lamports, Addr::Key(buyer), reserve, 0) {
                    Ok(()) => (),
                    Err(e) => {
                        return Err(e);
                    },
                }
                self.offers.put(key, OfferAccount { buyer, nft_mint, price, expiry });
                Ok(())
            },
            Some(rec) => {
                let rec = *rec;
                self.offers.put(key, OfferAccount { price, expiry, ..rec });
                Ok(())
            },
        }
    }

    /// Closes an offer once the expiry policy permits: the record is removed
    /// and its reserve returned to the buyer's wallet.
    pub fn cancel_buy(&mut self, market: Addr, buyer: u64, nft_mint: u64, now: u64) -> (r: Result<
        (),
        MarketplaceError,
    >)
        requires
            old(self).wf(),
        ensures
            final(self).wf(),
            final(self).min_reserve == old(self).min_reserve,
            final(self).configs == old(self).configs,
            final(self).listings == old(self).listings,
            final(self).tokens == old(self).tokens,
            final(self).metadata == old(self).metadata,
            ({
                let key = Addr::OfferRecord { nft_mint, buyer };
                let known = old(self).configs@.contains_key(market);
                let offered = old(self).offers@.contains_key(key);
                let can_cancel = offered && spec_cancellable(old(self).offers@[key].expiry, now);
                let refund_ok = spec_lamports_of(old(self).lamports@, Addr::Key(buyer)) + old(
                    self,
                ).min_reserve <= u64::MAX;
                &&& (r is Ok <==> known && offered && can_cancel && refund_ok)
                &&& match r {
                    Ok(()) => {
                        &&& final(self).offers@ == old(self).offers@.remove(key)
                        &&& final(self).lamports@ == spec_lamport_credit(
                            old(self).lamports@,
                            Addr::Key(buyer),
                            old(self).min_reserve,
                        )
                    },
                    Err(e) => {
                        &&& final(self).offers == old(self).offers
                        &&& final(self).lamports == old(self).lamports
                        &&& (e == MarketplaceError::InvalidAccountInput <==> !(known && offered))
                        &&& (e == MarketplaceError::InvalidExpiry <==> known && offered
                            && !can_cancel)
                        &&& (e == MarketplaceError::NumericalOverflow <==> known && offered
                            && can_cancel && !refund_ok)
                    },
                }
            }),
    {
        if !self.configs.contains(market) {
            return Err(MarketplaceError::InvalidAccountInput);
        }
        let key = Addr::OfferRecord { nft_mint, buyer };
        let rec: OfferAccount = match self.offers.get(key) {
            Some(x) => *x,
            None => {
                return Err(MarketplaceError::InvalidAccountInput);
            },
        };
        if !(rec.expiry == 0 || rec.expiry < now) {
            return Err(MarketplaceError::InvalidExpiry);
        }
        let reserve = self.min_reserve;
        if lamport_balance(&self.lamports, Addr::Key(buyer)) > u64::MAX - reserve {
            return Err(MarketplaceError::NumericalOverflow);
        }
        self.offers.delete(key);
        let res = credit_lamports(&mut self.lamports, Addr::Key(buyer), reserve);
        proof {
            assert(res is Ok);
        }
        Ok(())
    }
}

} // verus!
