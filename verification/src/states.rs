//! The persisted record types of the marketplace, and the ephemeral
//! settlement result.

use vstd::prelude::*;

use crate::addr::Addr;

verus! {

/// A marketplace configuration. Created once per (creator, currency) pair;
/// mutated only by its authority; never deleted.
///
/// Invariant (kept by the ledger): `discount_basis_points <=
/// seller_fee_basis_points <= 10000`.
#[derive(Clone, Copy, PartialEq, Eq, Structural, Debug)]
pub struct AuctionHouse {
    /// Address of the treasury account collecting protocol fees.
    pub auction_house_treasury: Addr,
    /// Account that treasury withdrawals are paid to.
    pub treasury_withdrawal_destination: Addr,
    /// Mint of the currency the marketplace trades in; the native sentinel
    /// selects the native rail.
    pub treasury_mint: u64,
    /// Key allowed to update the configuration and withdraw from the
    /// treasury.
    pub authority: u64,
    /// Key the marketplace address is derived from; fixed at creation.
    pub creator: u64,
    /// Protocol fee rate in basis points.
    pub seller_fee_basis_points: u16,
    /// Collection whose verified members grant buyers the discount rate.
    pub discount_collection: u64,
    /// Discounted fee rate in basis points.
    pub discount_basis_points: u16,
}

/// A listing record: an asset offered for sale. Exists exactly while the
/// listing is active; its address is derived from the asset's mint.
#[derive(Clone, Copy, PartialEq, Eq, Structural, Debug)]
pub struct ListingAccount {
    /// The seller who owns the listing.
    pub owner: u64,
    /// The listed asset's mint.
    pub nft_mint: u64,
    /// The asking price.
    pub price: u64,
    /// Expiry time; `0` means the listing never expires.
    pub expiry: u64,
}

/// An offer record: a buyer's standing bid for an asset. Exists exactly
/// while the offer is active; its address is derived from (mint, buyer).
#[derive(Clone, Copy, PartialEq, Eq, Structural, Debug)]
pub struct OfferAccount {
    /// The buyer who owns the offer.
    pub buyer: u64,
    /// The asset's mint.
    pub nft_mint: u64,
    /// The offered price.
    pub price: u64,
    /// Expiry time; `0` means the offer never expires.
    pub expiry: u64,
}

/// A token-ledger account holding units of one mint.
#[derive(Clone, Copy, Debug)]
pub struct TokenAccount {
    /// The party allowed to move the account's funds. For an associated
    /// token account this is its wallet; for protocol accounts it is a
    /// derived authority.
    pub authority: Addr,
    /// The mint whose units the account holds.
    pub mint: u64,
    /// The balance.
    pub amount: u64,
    /// A delegate allowed to move funds, if one is set.
    pub delegate: Option<u64>,
}

impl TokenAccount {
    /// A freshly created associated token account for a wallet and mint.
    pub open spec fn spec_fresh_ata(wallet: u64, mint: u64) -> TokenAccount {
        TokenAccount { authority: Addr::Key(wallet), mint, amount: 0, delegate: None }
    }

    /// Creates the associated token account a wallet starts out with.
    pub fn fresh_ata(wallet: u64, mint: u64) -> (t: TokenAccount)
        ensures
            t == TokenAccount::spec_fresh_ata(wallet, mint),
    {
        TokenAccount { authority: Addr::Key(wallet), mint, amount: 0, delegate: None }
    }
}

/// One creator entry of an asset's royalty schedule.
#[derive(Clone, Copy, PartialEq, Eq, Structural, Debug)]
pub struct Creator {
    /// The creator's key, paid its royalty share on each sale.
    pub address: u64,
    /// The creator's percentage share of the royalty base, `0..=100`.
    pub share: u8,
}

/// An asset's verified collection membership.
#[derive(Clone, Copy, PartialEq, Eq, Structural, Debug)]
pub struct Collection {
    /// The collection's key.
    pub key: u64,
    /// Whether membership has been verified by the collection authority.
    pub verified: bool,
}

/// An asset-metadata oracle record: the royalty schedule and collection
/// membership of one mint. Read-only to this engine.
#[derive(Clone, Debug)]
pub struct AssetMetadata {
    /// Royalty rate in basis points, applied to the sale price.
    pub royalty_bps: u16,
    /// The royalty recipients and their shares, if any.
    pub creators: Option<Vec<Creator>>,
    /// The asset's collection membership, if any.
    pub collection: Option<Collection>,
}

/// The outcome of a successful settlement. Ephemeral: reported to the
/// caller, never persisted.
#[derive(Clone, Debug)]
pub struct SettlementResult {
    /// The protocol fee paid to the treasury.
    pub fee_paid: u64,
    /// The royalty paid to each creator, in metadata order.
    pub royalties: Vec<u64>,
    /// The seller's net proceeds, royalty dust included.
    pub seller_net: u64,
    /// The remainder of the royalty base left by truncated creator shares,
    /// folded into the seller's net proceeds.
    pub dust: u64,
}

} // verus!
