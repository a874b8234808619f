//! The settlement engine: validates a matched (listing, offer) pair and
//! caller-supplied accounts, computes royalties and the protocol fee, pays
//! creators, treasury and seller out of the buyer's escrow, moves custody of
//! the asset to the buyer, and closes both records — all or nothing.
//!
//! The contract is exact: `execute_sale` succeeds if and only if
//! [`spec_sale_ok`] holds of the prior ledger state, and on success the new
//! ledger state equals the staged outcome described by [`sale_tokens_final`]
//! and [`sale_lamports_final`]. On failure the ledger is unchanged.

use vstd::prelude::*;

use crate::addr::{Addr, NATIVE_MINT};
use crate::errors::MarketplaceError;
use crate::fees::{
    protocol_fee, royalties, spec_applied_bps, spec_bps_fee, spec_cuts_sum, spec_share_cut,
};
use crate::ledger::{
    lemma_lamport_fold_ok_prefix, lemma_token_fold_account, lemma_token_fold_ok_prefix,
    spec_lamport_credit, spec_lamport_debit, spec_lamport_fold, spec_lamports_of,
    spec_token_credit, spec_token_credit_ok, spec_token_debit, spec_token_fold, wf_config,
    wf_stores, Ledger, credit_lamports, credit_token, debit_lamports, debit_token,
    lamport_balance,
};
use crate::states::{
    AssetMetadata, AuctionHouse, Creator, ListingAccount, OfferAccount, SettlementResult,
    TokenAccount,
};
use crate::table::Table;

verus! {

/// One caller-supplied (creator, creator-receipt-account) pair.
#[derive(Clone, Copy, PartialEq, Eq, Structural, Debug)]
pub struct SuppliedCreator {
    /// The creator's key; must match the asset metadata's creator list.
    pub address: u64,
    /// The creator's payment receipt account (token rail).
    pub receipt: Addr,
}

/// A caller-supplied discount proof: the buyer claims to hold an asset of
/// the marketplace's discount collection.
#[derive(Clone, Copy, PartialEq, Eq, Structural, Debug)]
pub struct DiscountProof {
    /// The mint of the asset held.
    pub mint: u64,
    /// The buyer's holding account for that mint.
    pub token_account: Addr,
    /// The asset's metadata record address.
    pub metadata_account: Addr,
}

/// The accounts and arguments of one settlement call.
#[derive(Clone, Debug)]
pub struct ExecuteSale {
    /// The marketplace settled under.
    pub market: Addr,
    /// The buyer; must own the offer.
    pub buyer: u64,
    /// The seller; must own the listing.
    pub seller: u64,
    /// The asset's mint.
    pub nft_mint: u64,
    /// The asset's custody account: the seller's associated account for the
    /// asset, held by the vault since listing.
    pub nft_account: Addr,
    /// The seller's payment receipt account.
    pub seller_payment_receipt_account: Addr,
    /// The buyer's asset receipt account.
    pub buyer_receipt_token_account: Addr,
    /// One pair per creator named in the asset's metadata, in order.
    pub creator_accounts: Vec<SuppliedCreator>,
    /// An optional discount proof; absent means the standard fee applies.
    pub discount_proof: Option<DiscountProof>,
}

/// A mathematical snapshot of the whole ledger.
pub struct LedgerView {
    /// The minimum reserve in force.
    pub min_reserve: u64,
    /// Native balances.
    pub lamports: Map<Addr, u64>,
    /// Token accounts.
    pub tokens: Map<Addr, TokenAccount>,
    /// Marketplace configurations.
    pub configs: Map<Addr, AuctionHouse>,
    /// Active listings.
    pub listings: Map<Addr, ListingAccount>,
    /// Active offers.
    pub offers: Map<Addr, OfferAccount>,
    /// The asset-metadata oracle.
    pub metadata: Map<Addr, AssetMetadata>,
}

impl View for Ledger {
    type V = LedgerView;

    open spec fn view(&self) -> LedgerView {
        LedgerView {
            min_reserve: self.min_reserve,
            lamports: self.lamports@,
            tokens: self.tokens@,
            configs: self.configs@,
            listings: self.listings@,
            offers: self.offers@,
            metadata: self.metadata@,
        }
    }
}

/// The listing record's address for a sale.
pub open spec fn sale_listing_key(a: ExecuteSale) -> Addr {
    Addr::ListingRecord { nft_mint: a.nft_mint }
}

/// The offer record's address for a sale.
pub open spec fn sale_offer_key(a: ExecuteSale) -> Addr {
    Addr::OfferRecord { nft_mint: a.nft_mint, buyer: a.buyer }
}

/// The asset's metadata address for a sale.
pub open spec fn sale_metadata_key(a: ExecuteSale) -> Addr {
    Addr::MetadataRecord { nft_mint: a.nft_mint }
}

/// The asset's custody account: the seller's associated account for it.
pub open spec fn sale_custody(a: ExecuteSale) -> Addr {
    Addr::Ata { wallet: a.seller, mint: a.nft_mint }
}

/// The buyer's asset receipt address.
pub open spec fn sale_buyer_receipt(a: ExecuteSale) -> Addr {
    Addr::Ata { wallet: a.buyer, mint: a.nft_mint }
}

/// The marketplace configuration a sale settles under.
pub open spec fn sale_config(v: LedgerView, a: ExecuteSale) -> AuctionHouse {
    v.configs[a.market]
}

/// Whether the sale settles on the native rail.
pub open spec fn sale_is_native(v: LedgerView, a: ExecuteSale) -> bool {
    sale_config(v, a).treasury_mint == NATIVE_MINT
}

/// The buyer's escrow address for a sale.
pub open spec fn sale_escrow(v: LedgerView, a: ExecuteSale) -> Addr {
    Addr::Escrow {
        creator: sale_config(v, a).creator,
        treasury_mint: sale_config(v, a).treasury_mint,
        depositor: a.buyer,
    }
}

/// The sale price: the listing's asking price (the offer must match it).
pub open spec fn sale_price(v: LedgerView, a: ExecuteSale) -> u64 {
    v.listings[sale_listing_key(a)].price
}

/// The asset's creator list, empty when the metadata names none.
pub open spec fn sale_creators(v: LedgerView, a: ExecuteSale) -> Seq<Creator> {
    match v.metadata[sale_metadata_key(a)].creators {
        Some(cv) => cv@,
        None => Seq::empty(),
    }
}

/// The royalty base: the price scaled by the asset's royalty rate.
pub open spec fn sale_base(v: LedgerView, a: ExecuteSale) -> int {
    spec_bps_fee(sale_price(v, a), v.metadata[sale_metadata_key(a)].royalty_bps)
}

/// The sum of all creator cuts of the royalty base.
pub open spec fn sale_cuts_total(v: LedgerView, a: ExecuteSale) -> int {
    spec_cuts_sum(
        sale_base(v, a) as u64,
        sale_creators(v, a),
        sale_creators(v, a).len() as int,
    )
}

/// The royalty paid to each creator, in metadata order.
pub open spec fn sale_cut_seq(v: LedgerView, a: ExecuteSale) -> Seq<u64> {
    Seq::new(
        sale_creators(v, a).len(),
        |i: int| spec_share_cut(sale_base(v, a) as u64, sale_creators(v, a)[i].share) as u64,
    )
}

/// The protocol fee actually charged, discount-aware: a supplied (and valid)
/// proof selects the discount rate.
pub open spec fn sale_fee(v: LedgerView, a: ExecuteSale) -> int {
    spec_bps_fee(
        sale_price(v, a),
        spec_applied_bps(
            sale_config(v, a).seller_fee_basis_points,
            sale_config(v, a).discount_basis_points,
            a.discount_proof is Some,
        ),
    )
}

/// The seller's net proceeds: price less creator cuts less the charged fee.
/// Royalty dust is part of this, not paid separately.
pub open spec fn sale_net(v: LedgerView, a: ExecuteSale) -> int {
    sale_price(v, a) - sale_cuts_total(v, a) - sale_fee(v, a)
}

/// The dust remainder of the royalty base after all creator cuts.
pub open spec fn sale_dust(v: LedgerView, a: ExecuteSale) -> int {
    sale_base(v, a) - sale_cuts_total(v, a)
}

/// The native top-up charged to the buyer when the escrow balance net of the
/// price falls short of the minimum reserve.
pub open spec fn sale_shortfall(v: LedgerView, a: ExecuteSale) -> int {
    let ebal = spec_lamports_of(v.lamports, sale_escrow(v, a));
    if ebal - sale_price(v, a) >= v.min_reserve {
        0
    } else {
        v.min_reserve - (ebal - sale_price(v, a))
    }
}

/// The native credit chain of a settlement: creator payouts, the protocol
/// fee to the treasury, the seller's net proceeds, and the two record
/// reserves returned on close.
pub open spec fn sale_native_items(v: LedgerView, a: ExecuteSale) -> Seq<(Addr, u64)> {
    let cs = sale_creators(v, a);
    let base = sale_base(v, a) as u64;
    Seq::new(
        cs.len() + 4,
        |i: int|
            if i < cs.len() {
                (Addr::Key(cs[i].address), spec_share_cut(base, cs[i].share) as u64)
            } else if i == cs.len() {
                (sale_config(v, a).auction_house_treasury, sale_fee(v, a) as u64)
            } else if i == cs.len() + 1 {
                (Addr::Key(a.seller), sale_net(v, a) as u64)
            } else if i == cs.len() + 2 {
                (Addr::Key(a.seller), v.min_reserve)
            } else {
                (Addr::Key(a.buyer), v.min_reserve)
            },
    )
}

/// The token credit chain of a settlement: creator payouts to their
/// associated accounts (created when absent), the protocol fee to the
/// treasury, and the seller's net proceeds.
pub open spec fn sale_token_items(v: LedgerView, a: ExecuteSale) -> Seq<(Addr, TokenAccount, u64)> {
    let cs = sale_creators(v, a);
    let base = sale_base(v, a) as u64;
    let tmint = sale_config(v, a).treasury_mint;
    Seq::new(
        cs.len() + 2,
        |i: int|
            if i < cs.len() {
                (
                    Addr::Ata { wallet: cs[i].address, mint: tmint },
                    TokenAccount::spec_fresh_ata(cs[i].address, tmint),
                    spec_share_cut(base, cs[i].share) as u64,
                )
            } else if i == cs.len() {
                (
                    sale_config(v, a).auction_house_treasury,
                    TokenAccount::spec_fresh_ata(a.seller, tmint),
                    sale_fee(v, a) as u64,
                )
            } else {
                (
                    Addr::Ata { wallet: a.seller, mint: tmint },
                    TokenAccount::spec_fresh_ata(a.seller, tmint),
                    sale_net(v, a) as u64,
                )
            },
    )
}

/// The two record reserves returned on close (token rail, where payments do
/// not touch native balances).
pub open spec fn sale_refund_items(v: LedgerView, a: ExecuteSale) -> Seq<(Addr, u64)> {
    seq![(Addr::Key(a.seller), v.min_reserve), (Addr::Key(a.buyer), v.min_reserve)]
}

/// The native balances after the buyer's top-up and the escrow debit of the
/// full price, before the credit chain (native rail).
pub open spec fn sale_lamports_mid(v: LedgerView, a: ExecuteSale) -> Map<Addr, u64> {
    let s = sale_shortfall(v, a) as u64;
    let m0 = spec_lamport_credit(
        spec_lamport_debit(v.lamports, Addr::Key(a.buyer), s),
        sale_escrow(v, a),
        s,
    );
    spec_lamport_debit(m0, sale_escrow(v, a), sale_price(v, a))
}

/// The native balances after a successful settlement.
pub open spec fn sale_lamports_final(v: LedgerView, a: ExecuteSale) -> Map<Addr, u64> {
    if sale_is_native(v, a) {
        spec_lamport_fold(sale_lamports_mid(v, a), sale_native_items(v, a)).0
    } else {
        spec_lamport_fold(v.lamports, sale_refund_items(v, a)).0
    }
}

/// The token accounts after the payment chain, before the asset moves.
pub open spec fn sale_tokens_paid(v: LedgerView, a: ExecuteSale) -> Map<Addr, TokenAccount> {
    if sale_is_native(v, a) {
        v.tokens
    } else {
        spec_token_fold(
            spec_token_debit(v.tokens, sale_escrow(v, a), sale_price(v, a)),
            sale_token_items(v, a),
        ).0
    }
}

/// The token accounts after a successful settlement: payments made, one unit
/// of the asset moved from custody to the buyer's receipt account (created
/// when absent).
pub open spec fn sale_tokens_final(v: LedgerView, a: ExecuteSale) -> Map<Addr, TokenAccount> {
    spec_token_credit(
        spec_token_debit(sale_tokens_paid(v, a), sale_custody(a), 1),
        sale_buyer_receipt(a),
        TokenAccount::spec_fresh_ata(a.buyer, a.nft_mint),
        1,
    )
}

/// Whether a discount proof is valid: the named metadata record exists at
/// its derived address, the holding account is the buyer's own associated
/// account holding at least one unit, and the asset's collection membership
/// is verified and names the marketplace's discount collection.
pub open spec fn spec_discount_ok(
    tokens: Map<Addr, TokenAccount>,
    metadata: Map<Addr, AssetMetadata>,
    buyer: u64,
    discount_collection: u64,
    p: DiscountProof,
) -> bool {
    let ata = Addr::Ata { wallet: buyer, mint: p.mint };
    let mkey = Addr::MetadataRecord { nft_mint: p.mint };
    &&& p.metadata_account == mkey
    &&& metadata.contains_key(mkey)
    &&& p.token_account == ata
    &&& tokens.contains_key(ata)
    &&& tokens[ata].authority == (Addr::Key(buyer))
    &&& tokens[ata].amount >= 1
    &&& match metadata[mkey].collection {
        Some(col) => col.verified && col.key == discount_collection,
        None => false,
    }
}

/// The rail-independent conditions of a settlement: a matched, unexpired,
/// correctly owned (listing, offer) pair; custody held by the vault; sound
/// fee and royalty arithmetic; creator pairs matching the metadata; a valid
/// discount proof when one is supplied; and a safe buyer receipt account.
pub open spec fn sale_prechecked(v: LedgerView, a: ExecuteSale, now: u64) -> bool {
    let c = sale_config(v, a);
    let lkey = sale_listing_key(a);
    let okey = sale_offer_key(a);
    let price = sale_price(v, a);
    let cs = sale_creators(v, a);
    let custody = sale_custody(a);
    let brt = sale_buyer_receipt(a);
    &&& v.configs.contains_key(a.market)
    &&& v.listings.contains_key(lkey)
    &&& v.offers.contains_key(okey)
    &&& v.listings[lkey].owner == a.seller
    &&& v.listings[lkey].expiry == 0 || v.listings[lkey].expiry < now
    &&& v.offers[okey].expiry == 0 || v.offers[okey].expiry < now
    &&& v.offers[okey].price == price
    &&& a.nft_account == custody
    &&& v.tokens.contains_key(custody)
    &&& v.tokens[custody].authority == c.auction_house_treasury
    &&& v.tokens[custody].amount >= 1
    &&& v.metadata.contains_key(sale_metadata_key(a))
    &&& match a.discount_proof {
        Some(p) => spec_discount_ok(v.tokens, v.metadata, a.buyer, c.discount_collection, p),
        None => true,
    }
    &&& sale_base(v, a) <= price
    &&& sale_cuts_total(v, a) <= sale_base(v, a)
    &&& sale_fee(v, a) <= price - sale_cuts_total(v, a)
    &&& a.creator_accounts@.len() >= cs.len()
    &&& forall|i: int| 0 <= i < cs.len() ==> (#[trigger] a.creator_accounts@[i]).address
        == cs[i].address
    &&& (!sale_is_native(v, a) ==> forall|i: int| 0 <= i < cs.len() ==> {
        let receipt = (#[trigger] a.creator_accounts@[i]).receipt;
        &&& receipt == (Addr::Ata { wallet: cs[i].address, mint: c.treasury_mint })
        &&& (v.tokens.contains_key(receipt) ==> v.tokens[receipt].authority == (Addr::Key(
            cs[i].address,
        )))
    })
    &&& a.buyer_receipt_token_account == brt
    &&& (v.tokens.contains_key(brt) ==> v.tokens[brt].authority == (Addr::Key(a.buyer))
        && v.tokens[brt].delegate is None)
}

/// Whether one unit of the asset can move from custody to the buyer's
/// receipt account after the payment chain.
pub open spec fn sale_asset_move_ok(v: LedgerView, a: ExecuteSale) -> bool {
    spec_token_credit_ok(
        spec_token_debit(sale_tokens_paid(v, a), sale_custody(a), 1),
        sale_buyer_receipt(a),
        TokenAccount::spec_fresh_ata(a.buyer, a.nft_mint),
        1,
    )
}

/// The native-rail funding conditions: the escrow covers the price, the
/// buyer covers the reserve top-up, the payment receipt is the seller's own
/// address, and the whole credit chain stays in bounds.
pub open spec fn sale_native_ok(v: LedgerView, a: ExecuteSale) -> bool {
    let price = sale_price(v, a);
    let escrow = sale_escrow(v, a);
    let ebal = spec_lamports_of(v.lamports, escrow);
    let s = sale_shortfall(v, a);
    &&& ebal >= price
    &&& spec_lamports_of(v.lamports, Addr::Key(a.buyer)) >= s
    &&& ebal + s <= u64::MAX
    &&& a.seller_payment_receipt_account == (Addr::Key(a.seller))
    &&& spec_lamport_fold(sale_lamports_mid(v, a), sale_native_items(v, a)).1
    &&& sale_asset_move_ok(v, a)
}

/// The token-rail funding conditions: the escrow account covers the price,
/// the treasury account exists, the payment receipt is the seller's own
/// associated account with no delegate, and both credit chains stay in
/// bounds.
pub open spec fn sale_token_ok(v: LedgerView, a: ExecuteSale) -> bool {
    let c = sale_config(v, a);
    let price = sale_price(v, a);
    let escrow = sale_escrow(v, a);
    let sr = Addr::Ata { wallet: a.seller, mint: c.treasury_mint };
    &&& v.tokens.contains_key(escrow)
    &&& v.tokens[escrow].amount >= price
    &&& v.tokens.contains_key(c.auction_house_treasury)
    &&& a.seller_payment_receipt_account == sr
    &&& (v.tokens.contains_key(sr) ==> v.tokens[sr].authority == (Addr::Key(a.seller))
        && v.tokens[sr].delegate is None)
    &&& spec_token_fold(spec_token_debit(v.tokens, escrow, price), sale_token_items(v, a)).1
    &&& spec_lamport_fold(v.lamports, sale_refund_items(v, a)).1
    &&& sale_asset_move_ok(v, a)
}

/// Every condition a settlement requires, over the prior ledger state.
/// `execute_sale` succeeds exactly when this holds.
pub open spec fn spec_sale_ok(v: LedgerView, a: ExecuteSale, now: u64) -> bool {
    &&& sale_prechecked(v, a, now)
    &&& if sale_is_native(v, a) {
        sale_native_ok(v, a)
    } else {
        sale_token_ok(v, a)
    }
}

/// Native credits whose targets are never escrow accounts keep every escrow
/// entry at or above the reserve.
pub proof fn lemma_lamport_fold_reserve(m: Map<Addr, u64>, items: Seq<(Addr, u64)>, reserve: u64)
    requires
        forall|x: Addr| #[trigger] m.contains_key(x) ==> crate::ledger::wf_escrow_reserve(
            x,
            m[x],
            reserve,
        ),
        forall|i: int| 0 <= i < items.len() ==> !((#[trigger] items[i]).0 is Escrow),
    ensures
        forall|x: Addr| #[trigger] spec_lamport_fold(m, items).0.contains_key(x)
            ==> crate::ledger::wf_escrow_reserve(x, spec_lamport_fold(m, items).0[x], reserve),
    decreases items.len(),
{
    if items.len() > 0 {
        assert forall|i: int| 0 <= i < items.drop_last().len() implies !((#[trigger] items.drop_last()[i]).0
            is Escrow) by {
            assert(items.drop_last()[i] == items[i]);
        }
        lemma_lamport_fold_reserve(m, items.drop_last(), reserve);
        assert(!(items[items.len() - 1].0 is Escrow));
        let prev = spec_lamport_fold(m, items.drop_last()).0;
        assert forall|x: Addr| #[trigger] spec_lamport_fold(m, items).0.contains_key(x)
            implies crate::ledger::wf_escrow_reserve(
            x,
            spec_lamport_fold(m, items).0[x],
            reserve,
        ) by {
            if x != items[items.len() - 1].0 {
                assert(prev.contains_key(x));
            }
        }
    }
}

/// Token credits whose templates carry the mint their target address names
/// keep every account on its address's mint.
pub proof fn lemma_token_fold_mints(m: Map<Addr, TokenAccount>, items: Seq<(Addr, TokenAccount, u64)>)
    requires
        forall|x: Addr| #[trigger] m.contains_key(x) ==> crate::ledger::wf_token(x, m[x]),
        forall|i: int| 0 <= i < items.len() ==> crate::ledger::wf_token(
            (#[trigger] items[i]).0,
            items[i].1,
        ),
    ensures
        forall|x: Addr| #[trigger] spec_token_fold(m, items).0.contains_key(x)
            ==> crate::ledger::wf_token(x, spec_token_fold(m, items).0[x]),
    decreases items.len(),
{
    if items.len() > 0 {
        assert forall|i: int| 0 <= i < items.drop_last().len() implies crate::ledger::wf_token(
            (#[trigger] items.drop_last()[i]).0,
            items.drop_last()[i].1,
        ) by {
            assert(items.drop_last()[i] == items[i]);
        }
        lemma_token_fold_mints(m, items.drop_last());
        let prev = spec_token_fold(m, items.drop_last()).0;
        let it = items[items.len() - 1];
        assert(crate::ledger::wf_token(it.0, it.1));
        if prev.contains_key(it.0) {
            assert(crate::ledger::wf_token(it.0, prev[it.0]));
        }
    }
}

/// Validates and settles a sale against working copies of the mutable
/// stores. On success the stores hold the settled state; on failure they may
/// hold partial work and must be discarded by the caller.
#[verifier::loop_isolation(false)]
#[verifier::rlimit(60)]
fn settle_core(
    min_reserve: u64,
    configs: &Table<AuctionHouse>,
    metadata_store: &Table<AssetMetadata>,
    lamports: &mut Table<u64>,
    tokens: &mut Table<TokenAccount>,
    listings: &mut Table<ListingAccount>,
    offers: &mut Table<OfferAccount>,
    a: &ExecuteSale,
    now: u64,
) -> (r: Result<SettlementResult, MarketplaceError>)
    requires
        configs.wf(),
        metadata_store.wf(),
        old(lamports).wf(),
        old(tokens).wf(),
        old(listings).wf(),
        old(offers).wf(),
        wf_stores(
            min_reserve,
            old(lamports)@,
            old(tokens)@,
            configs@,
            old(listings)@,
            old(offers)@,
        ),
    ensures
        ({
            let v = LedgerView {
                min_reserve,
                lamports: old(lamports)@,
                tokens: old(tokens)@,
                configs: configs@,
                listings: old(listings)@,
                offers: old(offers)@,
                metadata: metadata_store@,
            };
            &&& (r is Ok <==> spec_sale_ok(v, *a, now))
            &&& match r {
                Ok(res) => {
                    &&& final(lamports).wf()
                    &&& final(tokens).wf()
                    &&& final(listings).wf()
                    &&& final(offers).wf()
                    &&& wf_stores(
                        min_reserve,
                        final(lamports)@,
                        final(tokens)@,
                        configs@,
                        final(listings)@,
                        final(offers)@,
                    )
                    &&& final(listings)@ == old(listings)@.remove(sale_listing_key(*a))
                    &&& final(offers)@ == old(offers)@.remove(sale_offer_key(*a))
                    &&& final(tokens)@ == sale_tokens_final(v, *a)
                    &&& final(lamports)@ == sale_lamports_final(v, *a)
                    &&& res.fee_paid == sale_fee(v, *a)
                    &&& res.seller_net == sale_net(v, *a)
                    &&& res.dust == sale_dust(v, *a)
                    &&& res.royalties@ == sale_cut_seq(v, *a)
                },
                Err(e) => true,
            }
        }),
{
    let ghost v = LedgerView {
        min_reserve,
        lamports: lamports@,
        tokens: tokens@,
        configs: configs@,
        listings: listings@,
        offers: offers@,
        metadata: metadata_store@,
    };
    // validation: no store is touched until every check has passed
    let c: AuctionHouse = match configs.get(a.market) {
        Some(x) => *x,
        None => {
            return Err(MarketplaceError::InvalidAccountInput);
        },
    };
    proof {
        assert(wf_config(a.market, c));
    }
    let is_native = c.treasury_mint == NATIVE_MINT;
    let lkey = Addr::ListingRecord { nft_mint: a.nft_mint };
    let okey = Addr::OfferRecord { nft_mint: a.nft_mint, buyer: a.buyer };
    let listing: ListingAccount = match listings.get(lkey) {
        Some(x) => *x,
        None => {
            return Err(MarketplaceError::InvalidAccountInput);
        },
    };
    let offer: OfferAccount = match offers.get(okey) {
        Some(x) => *x,
        None => {
            return Err(MarketplaceError::InvalidAccountInput);
        },
    };
    if listing.owner != a.seller {
        return Err(MarketplaceError::InvalidOwner);
    }
    if !(listing.expiry == 0 || listing.expiry < now) {
        return Err(MarketplaceError::InvalidExpiry);
    }
    if !(offer.expiry == 0 || offer.expiry < now) {
        return Err(MarketplaceError::InvalidExpiry);
    }
    if offer.price != listing.price {
        return Err(MarketplaceError::InvalidAmount);
    }
    let price = listing.price;
    proof {
        assert(crate::ledger::wf_listing(lkey, listing));
    }
    let custody = Addr::ata_of(a.seller, a.nft_mint);
    if a.nft_account != custody {
        return Err(MarketplaceError::InvalidPubkey);
    }
    let cust_acct: TokenAccount = match tokens.get(custody) {
        Some(x) => *x,
        None => {
            return Err(MarketplaceError::InvalidAccountInput);
        },
    };
    if cust_acct.authority != c.auction_house_treasury {
        return Err(MarketplaceError::InvalidPubkey);
    }
    if cust_acct.amount < 1 {
        return Err(MarketplaceError::InvalidAmount);
    }
    let md: &AssetMetadata = match metadata_store.get(Addr::MetadataRecord { nft_mint: a.nft_mint }) {
        Some(x) => x,
        None => {
            return Err(MarketplaceError::InvalidAccountInput);
        },
    };
    // discount proof, when supplied
    match a.discount_proof {
        None => (),
        Some(p) => {
            if p.metadata_account != (Addr::MetadataRecord { nft_mint: p.mint }) {
                return Err(MarketplaceError::InvalidPubkey);
            }
            if !metadata_store.contains(p.metadata_account) {
                return Err(MarketplaceError::InvalidDiscountAccount);
            }
            let hold_at = Addr::ata_of(a.buyer, p.mint);
            if p.token_account != hold_at {
                return Err(MarketplaceError::InvalidPubkey);
            }
            let hold: TokenAccount = match tokens.get(hold_at) {
                Some(x) => *x,
                None => {
                    return Err(MarketplaceError::InvalidDiscountAccount);
                },
            };
            if hold.authority != (Addr::Key(a.buyer)) {
                return Err(MarketplaceError::InvalidPubkey);
            }
            if hold.amount < 1 {
                return Err(MarketplaceError::InvalidDiscountAccount);
            }
            let eligible: bool = match metadata_store.get(p.metadata_account) {
                Some(dmd) => match &dmd.collection {
                    Some(col) => col.verified && col.key == c.discount_collection,
                    None => false,
                },
                None => false,
            };
            if !eligible {
                return Err(MarketplaceError::InvalidDiscountAccount);
            }
        },
    }
    let empty_creators: Vec<Creator> = Vec::new();
    let cs: &Vec<Creator> = match &md.creators {
        Some(vv) => vv,
        None => &empty_creators,
    };
    proof {
        assert(cs@ =~= sale_creators(v, *a));
    }
    // royalty split and protocol fee
    let (base, cuts, dust) = match royalties(price, md.royalty_bps, cs) {
        Ok(x) => x,
        Err(e) => {
            return Err(e);
        },
    };
    let (_fee_undiscounted, charged) = protocol_fee(
        price,
        c.seller_fee_basis_points,
        c.discount_basis_points,
        a.discount_proof.is_some(),
    );
    proof {
        crate::fees::lemma_cuts_sum_nonneg(base, cs@, cs@.len() as int);
        assert(base == sale_base(v, *a));
        assert forall|j: int| 0 <= j < cuts@.len() implies cuts@[j] == sale_cut_seq(v, *a)[j] by {}
        assert(cuts@ =~= sale_cut_seq(v, *a));
    }
    let spent = base - dust;
    proof {
        assert(spent == sale_cuts_total(v, *a));
        assert(charged == sale_fee(v, *a));
    }
    let leftover = price - spent;
    if charged > leftover {
        return Err(MarketplaceError::NumericalOverflow);
    }
    let net = leftover - charged;
    let n = cs.len();
    if a.creator_accounts.len() < n {
        return Err(MarketplaceError::MissingCreator);
    }
    // validate the supplied creator pairs against the metadata's list
    let mut i: usize = 0;
    while i < n
        invariant
            0 <= i <= n,
            forall|j: int| 0 <= j < i ==> (#[trigger] a.creator_accounts@[j]).address
                == cs@[j].address,
            !is_native ==> forall|j: int| 0 <= j < i ==> {
                let receipt = (#[trigger] a.creator_accounts@[j]).receipt;
                &&& receipt == (Addr::Ata { wallet: cs@[j].address, mint: c.treasury_mint })
                &&& (v.tokens.contains_key(receipt) ==> v.tokens[receipt].authority == (
                Addr::Key(cs@[j].address)))
            },
        decreases n - i,
    {
        let sc = a.creator_accounts[i];
        if sc.address != cs[i].address {
            return Err(MarketplaceError::InvalidPubkey);
        }
        if !is_native {
            let want = Addr::ata_of(cs[i].address, c.treasury_mint);
            if sc.receipt != want {
                return Err(MarketplaceError::InvalidPubkey);
            }
            match tokens.get(want) {
                Some(acct) => {
                    if acct.authority != (Addr::Key(cs[i].address)) {
                        return Err(MarketplaceError::InvalidPubkey);
                    }
                },
                None => (),
            }
        }
        i = i + 1;
    }
    // buyer receipt account: right derivation, right owner, no delegate
    let escrow = Addr::escrow_of(c.creator, c.treasury_mint, a.buyer);
    let brt = Addr::ata_of(a.buyer, a.nft_mint);
    if a.buyer_receipt_token_account != brt {
        return Err(MarketplaceError::InvalidPubkey);
    }
    match tokens.get(brt) {
        Some(acct) => {
            if acct.authority != (Addr::Key(a.buyer)) {
                return Err(MarketplaceError::InvalidPubkey);
            }
            if acct.delegate.is_some() {
                return Err(MarketplaceError::BuyerATACannotHaveDelegate);
            }
        },
        None => (),
    }
    if is_native {
        settle_native(
            min_reserve, lamports, tokens, listings, offers, a, Ghost(v), Ghost(now), c, price,
            cuts, dust, charged, net, escrow, custody, brt, lkey, okey, cs,
        )
    } else {
        settle_token(
            min_reserve, lamports, tokens, listings, offers, a, Ghost(v), Ghost(now), c, price,
            cuts, dust, charged, net, escrow, custody, brt, lkey, okey, cs,
        )
    }
}

impl Ledger {
    /// Whether a settlement call would succeed on this ledger state.
    pub open spec fn sale_ok(self, a: ExecuteSale, now: u64) -> bool {
        spec_sale_ok(self@, a, now)
    }

    /// Settles a matched (listing, offer) pair: validates every supplied
    /// account, pays creator royalties and the discount-aware protocol fee
    /// out of the buyer's escrow, pays the seller the net proceeds (royalty
    /// dust included), moves one unit of the asset from the vault-held
    /// custody account to the buyer's receipt account, and closes both
    /// records, returning their reserves.
    ///
    /// All or nothing: on any failure the ledger is unchanged, and the call
    /// succeeds exactly when [`spec_sale_ok`] holds beforehand.
    pub fn execute_sale(&mut self, a: &ExecuteSale, now: u64) -> (r: Result<
        SettlementResult,
        MarketplaceError,
    >)
        requires
            old(self).wf(),
        ensures
            final(self).wf(),
            final(self).min_reserve == old(self).min_reserve,
            final(self).configs == old(self).configs,
            final(self).metadata == old(self).metadata,
            (r is Ok <==> old(self).sale_ok(*a, now)),
            r is Err ==> *final(self) == *old(self),
            r matches Ok(res) ==> {
                &&& final(self).listings@ == old(self).listings@.remove(sale_listing_key(*a))
                &&& final(self).offers@ == old(self).offers@.remove(sale_offer_key(*a))
                &&& final(self).tokens@ == sale_tokens_final(old(self)@, *a)
                &&& final(self).lamports@ == sale_lamports_final(old(self)@, *a)
                &&& res.fee_paid == sale_fee(old(self)@, *a)
                &&& res.seller_net == sale_net(old(self)@, *a)
                &&& res.dust == sale_dust(old(self)@, *a)
                &&& res.royalties@ == sale_cut_seq(old(self)@, *a)
            },
    {
        let mut work_lamports = self.lamports.duplicate();
        let mut work_tokens = self.tokens.duplicate();
        let mut work_listings = self.listings.duplicate();
        let mut work_offers = self.offers.duplicate();
        let r = settle_core(
            self.min_reserve,
            &self.configs,
            &self.metadata,
            &mut work_lamports,
            &mut work_tokens,
            &mut work_listings,
            &mut work_offers,
            a,
            now,
        );
        match r {
            Ok(res) => {
                self.lamports = work_lamports;
                self.tokens = work_tokens;
                self.listings = work_listings;
                self.offers = work_offers;
                Ok(res)
            },
            Err(e) => Err(e),
        }
    }
}

/// The native-rail payment phase of a settlement.
#[verifier::loop_isolation(false)]
#[verifier::rlimit(90)]
fn settle_native(
    min_reserve: u64,
    lamports: &mut Table<u64>,
    tokens: &mut Table<TokenAccount>,
    listings: &mut Table<ListingAccount>,
    offers: &mut Table<OfferAccount>,
    a: &ExecuteSale,
    Ghost(v): Ghost<LedgerView>,
    Ghost(now): Ghost<u64>,
    c: AuctionHouse,
    price: u64,
    cuts: Vec<u64>,
    dust: u64,
    charged: u64,
    net: u64,
    escrow: Addr,
    custody: Addr,
    brt: Addr,
    lkey: Addr,
    okey: Addr,
    cs: &Vec<Creator>,
) -> (r: Result<SettlementResult, MarketplaceError>)
    requires
        old(lamports).wf(),
        old(tokens).wf(),
        old(listings).wf(),
        old(offers).wf(),
        v.min_reserve == min_reserve,
        v.lamports == old(lamports)@,
        v.tokens == old(tokens)@,
        v.listings == old(listings)@,
        v.offers == old(offers)@,
        wf_stores(
            min_reserve,
            old(lamports)@,
            old(tokens)@,
            v.configs,
            old(listings)@,
            old(offers)@,
        ),
        sale_prechecked(v, *a, now),
        sale_is_native(v, *a),
        c == sale_config(v, *a),
        price == sale_price(v, *a),
        cs@ == sale_creators(v, *a),
        cuts@ == sale_cut_seq(v, *a),
        dust == sale_dust(v, *a),
        charged == sale_fee(v, *a),
        net == sale_net(v, *a),
        escrow == sale_escrow(v, *a),
        custody == sale_custody(*a),
        brt == sale_buyer_receipt(*a),
        lkey == sale_listing_key(*a),
        okey == sale_offer_key(*a),
    ensures
        (r is Ok <==> sale_native_ok(v, *a)),
        r matches Ok(res) ==> {
            &&& final(lamports).wf()
            &&& final(tokens).wf()
            &&& final(listings).wf()
            &&& final(offers).wf()
            &&& wf_stores(
                min_reserve,
                final(lamports)@,
                final(tokens)@,
                v.configs,
                final(listings)@,
                final(offers)@,
            )
            &&& final(listings)@ == v.listings.remove(lkey)
            &&& final(offers)@ == v.offers.remove(okey)
            &&& final(tokens)@ == sale_tokens_final(v, *a)
            &&& final(lamports)@ == sale_lamports_final(v, *a)
            &&& res.fee_paid == sale_fee(v, *a)
            &&& res.seller_net == sale_net(v, *a)
            &&& res.dust == sale_dust(v, *a)
            &&& res.royalties@ == sale_cut_seq(v, *a)
        },
{
    if a.seller_payment_receipt_account != (Addr::Key(a.seller)) {
        return Err(MarketplaceError::InvalidPubkey);
    }
    let ebal = lamport_balance(lamports, escrow);
    proof {
        // the escrow reserve invariant rules the rent computation's panic
        // case out: an existing escrow holds at least the reserve, and an
        // absent one holds nothing, which is below any positive price
        if lamports@.contains_key(escrow) {
            assert(crate::ledger::wf_escrow_reserve(escrow, lamports@[escrow], min_reserve));
        }
        assert(v.listings.contains_key(lkey));
        assert(crate::ledger::wf_listing(lkey, v.listings[lkey]));
    }
    let freed = match crate::ledger::rent_checked_sub(ebal, price, min_reserve) {
        Ok(x) => x,
        Err(_) => {
            return Err(MarketplaceError::NumericalOverflow);
        },
    };
    // the buyer covers any shortfall below the reserve, capped at the
    // reserve itself
    let s: u64 = if freed != price {
        let shortfall = price - freed;
        if shortfall < min_reserve {
            shortfall
        } else {
            min_reserve
        }
    } else {
        0
    };
    proof {
        assert(s == sale_shortfall(v, *a));
    }
    if s > 0 {
        if lamport_balance(lamports, Addr::Key(a.buyer)) < s {
            return Err(MarketplaceError::NumericalOverflow);
        }
        if ebal > u64::MAX - s {
            return Err(MarketplaceError::NumericalOverflow);
        }
        proof {
            assert(escrow != (Addr::Key(a.buyer)));
        }
        let r1 = debit_lamports(lamports, Addr::Key(a.buyer), s, 0);
        proof {
            assert(r1 is Ok);
        }
        let r2 = credit_lamports(lamports, escrow, s);
        proof {
            assert(r2 is Ok);
        }
    }
    let r3 = debit_lamports(lamports, escrow, price, min_reserve);
    proof {
        assert(r3 is Ok);
        assert(lamports@ == sale_lamports_mid(v, *a));
    }
    let ghost m1 = lamports@;
    let ghost items = sale_native_items(v, *a);
    let n = cs.len();
    proof {
        assert(items.len() == n + 4);
        assert(items.take(0) =~= Seq::<(Addr, u64)>::empty());
    }
    let mut k: usize = 0;
    while k < n
        invariant
            0 <= k <= n,
            lamports.wf(),
            tokens.wf(),
            listings.wf(),
            offers.wf(),
            tokens@ == v.tokens,
            listings@ == v.listings,
            offers@ == v.offers,
            lamports@ == spec_lamport_fold(m1, items.take(k as int)).0,
            spec_lamport_fold(m1, items.take(k as int)).1,
        decreases n - k,
    {
        proof {
            assert(items[k as int] == (Addr::Key(cs@[k as int].address), cuts@[k as int]));
            assert(items.take(k as int + 1).drop_last() =~= items.take(k as int));
        }
        match credit_lamports(lamports, Addr::Key(cs[k].address), cuts[k]) {
            Ok(()) => (),
            Err(_) => {
                proof {
                    assert(!spec_lamport_fold(m1, items.take(k as int + 1)).1);
                    assert(items.take(items.len() as int) =~= items);
                    if spec_lamport_fold(m1, items).1 {
                        lemma_lamport_fold_ok_prefix(m1, items, k as int + 1, items.len() as int);
                    }
                }
                return Err(MarketplaceError::NumericalOverflow);
            },
        }
        k = k + 1;
    }
    // the protocol fee moves to the treasury
    proof {
        assert(items[n as int] == (c.auction_house_treasury, charged));
        assert(items.take(n as int + 1).drop_last() =~= items.take(n as int));
    }
    match credit_lamports(lamports, c.auction_house_treasury, charged) {
        Ok(()) => (),
        Err(_) => {
            proof {
                assert(!spec_lamport_fold(m1, items.take(n as int + 1)).1);
                assert(items.take(items.len() as int) =~= items);
                if spec_lamport_fold(m1, items).1 {
                    lemma_lamport_fold_ok_prefix(m1, items, n as int + 1, items.len() as int);
                }
            }
            return Err(MarketplaceError::NumericalOverflow);
        },
    }
    proof {
        assert(lamports@ == spec_lamport_fold(m1, items.take(n as int + 1)).0);
        assert(spec_lamport_fold(m1, items.take(n as int + 1)).1);
    }
    // the seller's net proceeds, royalty dust included
    proof {
        assert(items[n as int + 1] == (Addr::Key(a.seller), net));
        assert(items.take(n as int + 2).drop_last() =~= items.take(n as int + 1));
    }
    match credit_lamports(lamports, Addr::Key(a.seller), net) {
        Ok(()) => (),
        Err(_) => {
            proof {
                assert(!spec_lamport_fold(m1, items.take(n as int + 2)).1);
                assert(items.take(items.len() as int) =~= items);
                if spec_lamport_fold(m1, items).1 {
                    lemma_lamport_fold_ok_prefix(m1, items, n as int + 2, items.len() as int);
                }
            }
            return Err(MarketplaceError::NumericalOverflow);
        },
    }
    proof {
        assert(lamports@ == spec_lamport_fold(m1, items.take(n as int + 2)).0);
        assert(spec_lamport_fold(m1, items.take(n as int + 2)).1);
    }
    // one unit of the asset moves from custody to the buyer
    let r4 = debit_token(tokens, custody, 1);
    proof {
        assert(r4 is Ok);
        assert(sale_tokens_paid(v, *a) == v.tokens);
    }
    match credit_token(tokens, brt, TokenAccount::fresh_ata(a.buyer, a.nft_mint), 1) {
        Ok(()) => (),
        Err(_) => {
            return Err(MarketplaceError::NumericalOverflow);
        },
    }
    // close both records, returning their reserves
    listings.delete(lkey);
    offers.delete(okey);
    proof {
        assert(items[n as int + 2] == (Addr::Key(a.seller), min_reserve));
        assert(items.take(n as int + 3).drop_last() =~= items.take(n as int + 2));
    }
    match credit_lamports(lamports, Addr::Key(a.seller), min_reserve) {
        Ok(()) => (),
        Err(_) => {
            proof {
                assert(!spec_lamport_fold(m1, items.take(n as int + 3)).1);
                assert(items.take(items.len() as int) =~= items);
                if spec_lamport_fold(m1, items).1 {
                    lemma_lamport_fold_ok_prefix(m1, items, n as int + 3, items.len() as int);
                }
            }
            return Err(MarketplaceError::NumericalOverflow);
        },
    }
    proof {
        assert(lamports@ == spec_lamport_fold(m1, items.take(n as int + 3)).0);
        assert(spec_lamport_fold(m1, items.take(n as int + 3)).1);
    }
    proof {
        assert(items[n as int + 3] == (Addr::Key(a.buyer), min_reserve));
        assert(items.take(n as int + 4).drop_last() =~= items.take(n as int + 3));
    }
    match credit_lamports(lamports, Addr::Key(a.buyer), min_reserve) {
        Ok(()) => (),
        Err(_) => {
            proof {
                assert(!spec_lamport_fold(m1, items.take(n as int + 4)).1);
                assert(items.take(items.len() as int) =~= items);
                if spec_lamport_fold(m1, items).1 {
                    lemma_lamport_fold_ok_prefix(m1, items, n as int + 4, items.len() as int);
                }
            }
            return Err(MarketplaceError::NumericalOverflow);
        },
    }
    proof {
        assert(lamports@ == spec_lamport_fold(m1, items.take(n as int + 4)).0);
        assert(spec_lamport_fold(m1, items.take(n as int + 4)).1);
        assert(items.take(items.len() as int) =~= items);
        assert(lamports@ == sale_lamports_final(v, *a));
        assert forall|x: Addr| #[trigger] m1.contains_key(x) implies crate::ledger::wf_escrow_reserve(
            x,
            m1[x],
            min_reserve,
        ) by {
            if x != escrow && x != (Addr::Key(a.buyer)) {
                assert(v.lamports.contains_key(x));
            }
        }
        assert forall|i: int| 0 <= i < items.len() implies !((#[trigger] items[i]).0 is Escrow) by {}
        lemma_lamport_fold_reserve(m1, items, min_reserve);
        assert(tokens@ == sale_tokens_final(v, *a));
        assert forall|x: Addr| #[trigger] tokens@.contains_key(x) implies crate::ledger::wf_token(
            x,
            tokens@[x],
        ) by {
            if x != brt && x != custody {
                assert(v.tokens.contains_key(x));
            }
        }
        assert forall|x: Addr| #[trigger] listings@.contains_key(x) implies crate::ledger::wf_listing(
            x,
            listings@[x],
        ) by {
            assert(v.listings.contains_key(x));
        }
        assert forall|x: Addr| #[trigger] offers@.contains_key(x) implies crate::ledger::wf_offer(
            x,
            offers@[x],
        ) by {
            assert(v.offers.contains_key(x));
        }
    }
    Ok(SettlementResult { fee_paid: charged, royalties: cuts, seller_net: net, dust })
}

/// The token-rail payment phase of a settlement.
#[verifier::loop_isolation(false)]
#[verifier::rlimit(90)]
fn settle_token(
    min_reserve: u64,
    lamports: &mut Table<u64>,
    tokens: &mut Table<TokenAccount>,
    listings: &mut Table<ListingAccount>,
    offers: &mut Table<OfferAccount>,
    a: &ExecuteSale,
    Ghost(v): Ghost<LedgerView>,
    Ghost(now): Ghost<u64>,
    c: AuctionHouse,
    price: u64,
    cuts: Vec<u64>,
    dust: u64,
    charged: u64,
    net: u64,
    escrow: Addr,
    custody: Addr,
    brt: Addr,
    lkey: Addr,
    okey: Addr,
    cs: &Vec<Creator>,
) -> (r: Result<SettlementResult, MarketplaceError>)
    requires
        old(lamports).wf(),
        old(tokens).wf(),
        old(listings).wf(),
        old(offers).wf(),
        v.min_reserve == min_reserve,
        v.lamports == old(lamports)@,
        v.tokens == old(tokens)@,
        v.listings == old(listings)@,
        v.offers == old(offers)@,
        wf_stores(
            min_reserve,
            old(lamports)@,
            old(tokens)@,
            v.configs,
            old(listings)@,
            old(offers)@,
        ),
        sale_prechecked(v, *a, now),
        !sale_is_native(v, *a),
        v.configs.contains_key(a.market),
        wf_config(a.market, c),
        c == sale_config(v, *a),
        price == sale_price(v, *a),
        cs@ == sale_creators(v, *a),
        cuts@ == sale_cut_seq(v, *a),
        dust == sale_dust(v, *a),
        charged == sale_fee(v, *a),
        net == sale_net(v, *a),
        escrow == sale_escrow(v, *a),
        custody == sale_custody(*a),
        brt == sale_buyer_receipt(*a),
        lkey == sale_listing_key(*a),
        okey == sale_offer_key(*a),
    ensures
        (r is Ok <==> sale_token_ok(v, *a)),
        r matches Ok(res) ==> {
            &&& final(lamports).wf()
            &&& final(tokens).wf()
            &&& final(listings).wf()
            &&& final(offers).wf()
            &&& wf_stores(
                min_reserve,
                final(lamports)@,
                final(tokens)@,
                v.configs,
                final(listings)@,
                final(offers)@,
            )
            &&& final(listings)@ == v.listings.remove(lkey)
            &&& final(offers)@ == v.offers.remove(okey)
            &&& final(tokens)@ == sale_tokens_final(v, *a)
            &&& final(lamports)@ == sale_lamports_final(v, *a)
            &&& res.fee_paid == sale_fee(v, *a)
            &&& res.seller_net == sale_net(v, *a)
            &&& res.dust == sale_dust(v, *a)
            &&& res.royalties@ == sale_cut_seq(v, *a)
        },
{
    let sr = Addr::ata_of(a.seller, c.treasury_mint);
    if a.seller_payment_receipt_account != sr {
        return Err(MarketplaceError::InvalidPubkey);
    }
    match tokens.get(sr) {
        Some(acct) => {
            if acct.authority != (Addr::Key(a.seller)) {
                return Err(MarketplaceError::InvalidPubkey);
            }
            if acct.delegate.is_some() {
                return Err(MarketplaceError::SellerATACannotHaveDelegate);
            }
        },
        None => (),
    }
    if !tokens.contains(c.auction_house_treasury) {
        return Err(MarketplaceError::InvalidAccountInput);
    }
    // the escrow is debited the full price up front
    match debit_token(tokens, escrow, price) {
        Ok(()) => (),
        Err(e) => {
            return Err(e);
        },
    }
    proof {
        assert(tokens@ == spec_token_debit(v.tokens, escrow, price));
    }
    let ghost m1 = tokens@;
    let ghost items = sale_token_items(v, *a);
    let n = cs.len();
    proof {
        assert(items.len() == n + 2);
        assert(items.take(0) =~= Seq::<(Addr, TokenAccount, u64)>::empty());
    }
    let mut k: usize = 0;
    while k < n
        invariant
            0 <= k <= n,
            tokens.wf(),
            lamports.wf(),
            listings.wf(),
            offers.wf(),
            lamports@ == v.lamports,
            listings@ == v.listings,
            offers@ == v.offers,
            tokens@ == spec_token_fold(m1, items.take(k as int)).0,
            spec_token_fold(m1, items.take(k as int)).1,
        decreases n - k,
    {
        let target = Addr::ata_of(cs[k].address, c.treasury_mint);
        let fresh_c = TokenAccount::fresh_ata(cs[k].address, c.treasury_mint);
        proof {
            assert(items[k as int] == (target, fresh_c, cuts@[k as int]));
            assert(items.take(k as int + 1).drop_last() =~= items.take(k as int));
        }
        match credit_token(tokens, target, fresh_c, cuts[k]) {
            Ok(()) => (),
            Err(_) => {
                proof {
                    assert(!spec_token_fold(m1, items.take(k as int + 1)).1);
                    assert(items.take(items.len() as int) =~= items);
                    if spec_token_fold(m1, items).1 {
                        lemma_token_fold_ok_prefix(m1, items, k as int + 1, items.len() as int);
                    }
                }
                return Err(MarketplaceError::NumericalOverflow);
            },
        }
        k = k + 1;
    }
    // the protocol fee moves to the treasury account
    let fresh_t = TokenAccount::fresh_ata(a.seller, c.treasury_mint);
    proof {
        assert(items[n as int] == (c.auction_house_treasury, fresh_t, charged));
        assert(items.take(n as int + 1).drop_last() =~= items.take(n as int));
    }
    match credit_token(tokens, c.auction_house_treasury, fresh_t, charged) {
        Ok(()) => (),
        Err(_) => {
            proof {
                assert(!spec_token_fold(m1, items.take(n as int + 1)).1);
                assert(items.take(items.len() as int) =~= items);
                if spec_token_fold(m1, items).1 {
                    lemma_token_fold_ok_prefix(m1, items, n as int + 1, items.len() as int);
                }
            }
            return Err(MarketplaceError::NumericalOverflow);
        },
    }
    proof {
        assert(tokens@ == spec_token_fold(m1, items.take(n as int + 1)).0);
        assert(spec_token_fold(m1, items.take(n as int + 1)).1);
    }
    // the seller's net proceeds, royalty dust included
    proof {
        assert(items[n as int + 1] == (sr, fresh_t, net));
        assert(items.take(n as int + 2).drop_last() =~= items.take(n as int + 1));
    }
    match credit_token(tokens, sr, fresh_t, net) {
        Ok(()) => (),
        Err(_) => {
            proof {
                assert(!spec_token_fold(m1, items.take(n as int + 2)).1);
                assert(items.take(items.len() as int) =~= items);
                if spec_token_fold(m1, items).1 {
                    lemma_token_fold_ok_prefix(m1, items, n as int + 2, items.len() as int);
                }
            }
            return Err(MarketplaceError::NumericalOverflow);
        },
    }
    proof {
        assert(tokens@ == spec_token_fold(m1, items.take(n as int + 2)).0);
        assert(spec_token_fold(m1, items.take(n as int + 2)).1);
        assert(items.take(items.len() as int) =~= items);
        assert(tokens@ == sale_tokens_paid(v, *a));
    }
    // one unit of the asset moves from custody to the buyer
    proof {
        assert(m1.contains_key(custody));
        lemma_token_fold_account(m1, items, custody);
        assert(tokens@[custody].amount >= 1);
    }
    let r4 = debit_token(tokens, custody, 1);
    proof {
        assert(r4 is Ok);
    }
    match credit_token(tokens, brt, TokenAccount::fresh_ata(a.buyer, a.nft_mint), 1) {
        Ok(()) => (),
        Err(_) => {
            return Err(MarketplaceError::NumericalOverflow);
        },
    }
    // close both records, returning their reserves
    listings.delete(lkey);
    offers.delete(okey);
    let ghost ritems = sale_refund_items(v, *a);
    proof {
        assert(ritems.len() == 2);
        assert(ritems[0] == (Addr::Key(a.seller), min_reserve));
        assert(ritems[1] == (Addr::Key(a.buyer), min_reserve));
        assert(ritems.take(0) =~= Seq::<(Addr, u64)>::empty());
        assert(ritems.take(1).drop_last() =~= ritems.take(0));
        assert(lamports@ == v.lamports);
        assert(spec_lamport_fold(v.lamports, ritems.take(0)).0 == v.lamports);
    }
    match credit_lamports(lamports, Addr::Key(a.seller), min_reserve) {
        Ok(()) => (),
        Err(_) => {
            proof {
                assert(!spec_lamport_fold(v.lamports, ritems.take(1)).1);
                assert(ritems.take(2) =~= ritems);
                if spec_lamport_fold(v.lamports, ritems).1 {
                    lemma_lamport_fold_ok_prefix(v.lamports, ritems, 1, 2);
                }
            }
            return Err(MarketplaceError::NumericalOverflow);
        },
    }
    proof {
        assert(lamports@ == spec_lamport_fold(v.lamports, ritems.take(1)).0);
        assert(spec_lamport_fold(v.lamports, ritems.take(1)).1);
        assert(ritems.take(2).drop_last() =~= ritems.take(1));
    }
    match credit_lamports(lamports, Addr::Key(a.buyer), min_reserve) {
        Ok(()) => (),
        Err(_) => {
            proof {
                assert(!spec_lamport_fold(v.lamports, ritems.take(2)).1);
                assert(ritems.take(2) =~= ritems);
            }
            return Err(MarketplaceError::NumericalOverflow);
        },
    }
    proof {
        assert(lamports@ == spec_lamport_fold(v.lamports, ritems.take(2)).0);
        assert(spec_lamport_fold(v.lamports, ritems.take(2)).1);
        assert(ritems.take(2) =~= ritems);
        assert(lamports@ == sale_lamports_final(v, *a));
        assert(tokens@ == sale_tokens_final(v, *a));
        assert forall|x: Addr| #[trigger] lamports@.contains_key(x) implies crate::ledger::wf_escrow_reserve(
            x,
            lamports@[x],
            min_reserve,
        ) by {
            if x != (Addr::Key(a.seller)) && x != (Addr::Key(a.buyer)) {
                assert(v.lamports.contains_key(x));
            }
        }
        assert forall|i: int| 0 <= i < items.len() implies crate::ledger::wf_token(
            (#[trigger] items[i]).0,
            items[i].1,
        ) by {}
        assert forall|x: Addr| #[trigger] m1.contains_key(x) implies crate::ledger::wf_token(
            x,
            m1[x],
        ) by {
            assert(v.tokens.contains_key(x));
        }
        lemma_token_fold_mints(m1, items);
        assert forall|x: Addr| #[trigger] tokens@.contains_key(x) implies crate::ledger::wf_token(
            x,
            tokens@[x],
        ) by {
            if x != brt && x != custody {
                assert(spec_token_fold(m1, items).0.contains_key(x));
            } else if x == custody && x != brt {
                assert(spec_token_fold(m1, items).0.contains_key(custody));
            }
        }
        assert forall|x: Addr| #[trigger] listings@.contains_key(x) implies crate::ledger::wf_listing(
            x,
            listings@[x],
        ) by {
            assert(v.listings.contains_key(x));
        }
        assert forall|x: Addr| #[trigger] offers@.contains_key(x) implies crate::ledger::wf_offer(
            x,
            offers@[x],
        ) by {
            assert(v.offers.contains_key(x));
        }
    }
    Ok(SettlementResult { fee_paid: charged, royalties: cuts, seller_net: net, dust })
}

} // verus!
