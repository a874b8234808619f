//! Escrow deposits and the listing/offer ledger.

use marketplace::addr::{Addr, NATIVE_MINT};
use marketplace::errors::MarketplaceError;
use marketplace::ledger::Ledger;
use marketplace::states::AssetMetadata;

const AUTH: u64 = 1;
const SELLER: u64 = 2;
const BUYER: u64 = 3;
const COLL: u64 = 200;
const NFT: u64 = 100;
const TMINT: u64 = 77;
const RES: u64 = 10;
const NOW: u64 = 1_000;

fn native_market(fee: u16, disc: u16) -> (Ledger, Addr) {
    let mut l = Ledger::new(RES);
    l.fund_wallet(AUTH, 1_000_000).unwrap();
    l.fund_wallet(SELLER, 1_000_000).unwrap();
    l.fund_wallet(BUYER, 1_000_000).unwrap();
    let market = l
        .create_auction_house(AUTH, NATIVE_MINT, Addr::Key(AUTH), AUTH, fee, COLL, disc)
        .unwrap();
    (l, market)
}

fn escrow_of(depositor: u64) -> Addr {
    Addr::Escrow { creator: AUTH, treasury_mint: NATIVE_MINT, depositor }
}

fn listed(l: &mut Ledger, market: Addr, price: u64, expiry: Option<u64>) {
    l.mint_to(SELLER, NFT, 1).unwrap();
    l.set_metadata(NFT, AssetMetadata { royalty_bps: 0, creators: None, collection: None });
    l.list(market, SELLER, NFT, Addr::Ata { wallet: SELLER, mint: NFT }, price, expiry, NOW)
        .unwrap();
}

#[test]
fn deposit_native_tops_up_to_reserve_first() {
    let (mut l, market) = native_market(250, 100);
    l.deposit(market, BUYER, Addr::Key(BUYER), 100).unwrap();
    // the escrow reaches the reserve before the 100 are added
    assert_eq!(*l.lamports.get(escrow_of(BUYER)).unwrap(), RES + 100);
    assert_eq!(*l.lamports.get(Addr::Key(BUYER)).unwrap(), 1_000_000 - RES - 100);
    // a second deposit finds the reserve in place and adds only the amount
    l.deposit(market, BUYER, Addr::Key(BUYER), 50).unwrap();
    assert_eq!(*l.lamports.get(escrow_of(BUYER)).unwrap(), RES + 150);
}

#[test]
fn deposit_native_rejects_aliased_source() {
    let (mut l, market) = native_market(250, 100);
    let r = l.deposit(market, BUYER, Addr::Key(SELLER), 100);
    assert_eq!(r, Err(MarketplaceError::InvalidAccountInput));
}

#[test]
fn deposit_native_rejects_insufficient_wallet() {
    let (mut l, market) = native_market(250, 100);
    let r = l.deposit(market, BUYER, Addr::Key(BUYER), 2_000_000);
    assert_eq!(r, Err(MarketplaceError::NumericalOverflow));
}

#[test]
fn deposit_token_moves_into_escrow_account() {
    let mut l = Ledger::new(RES);
    let market = l
        .create_auction_house(AUTH, TMINT, Addr::Ata { wallet: AUTH, mint: TMINT }, AUTH, 250, COLL, 100)
        .unwrap();
    l.mint_to(BUYER, TMINT, 500).unwrap();
    let pay = Addr::Ata { wallet: BUYER, mint: TMINT };
    l.deposit(market, BUYER, pay, 200).unwrap();
    let escrow = Addr::Escrow { creator: AUTH, treasury_mint: TMINT, depositor: BUYER };
    let e = l.tokens.get(escrow).unwrap();
    assert_eq!(e.amount, 200);
    assert_eq!(e.authority, market);
    assert_eq!(l.tokens.get(pay).unwrap().amount, 300);
}

#[test]
fn deposit_token_rejects_foreign_source() {
    let mut l = Ledger::new(RES);
    let market = l
        .create_auction_house(AUTH, TMINT, Addr::Ata { wallet: AUTH, mint: TMINT }, AUTH, 250, COLL, 100)
        .unwrap();
    l.mint_to(SELLER, TMINT, 500).unwrap();
    let r = l.deposit(market, BUYER, Addr::Ata { wallet: SELLER, mint: TMINT }, 100);
    assert_eq!(r, Err(MarketplaceError::InvalidAccountInput));
}

#[test]
fn list_moves_custody_to_vault_and_records() {
    let (mut l, market) = native_market(250, 100);
    listed(&mut l, market, 500, None);
    let custody = l.tokens.get(Addr::Ata { wallet: SELLER, mint: NFT }).unwrap();
    assert_eq!(
        custody.authority,
        Addr::Treasury { creator: AUTH, treasury_mint: NATIVE_MINT }
    );
    assert_eq!(custody.amount, 1);
    let rec = l.listings.get(Addr::ListingRecord { nft_mint: NFT }).unwrap();
    assert_eq!(rec.owner, SELLER);
    assert_eq!(rec.nft_mint, NFT);
    assert_eq!(rec.price, 500);
    assert_eq!(rec.expiry, 0);
    // the record reserve came out of the seller's wallet
    assert_eq!(*l.lamports.get(Addr::Key(SELLER)).unwrap(), 1_000_000 - RES);
}

#[test]
fn second_list_updates_price_only() {
    let (mut l, market) = native_market(250, 100);
    listed(&mut l, market, 500, None);
    l.list(market, SELLER, NFT, Addr::Ata { wallet: SELLER, mint: NFT }, 700, Some(NOW + 5), NOW)
        .unwrap();
    let rec = l.listings.get(Addr::ListingRecord { nft_mint: NFT }).unwrap();
    assert_eq!(rec.price, 700);
    assert_eq!(rec.expiry, NOW + 5);
    assert_eq!(rec.owner, SELLER);
    // custody moved exactly once and no second reserve was taken
    let custody = l.tokens.get(Addr::Ata { wallet: SELLER, mint: NFT }).unwrap();
    assert_eq!(
        custody.authority,
        Addr::Treasury { creator: AUTH, treasury_mint: NATIVE_MINT }
    );
    assert_eq!(*l.lamports.get(Addr::Key(SELLER)).unwrap(), 1_000_000 - RES);
}

#[test]
fn second_list_by_stranger_rejected() {
    let (mut l, market) = native_market(250, 100);
    listed(&mut l, market, 500, None);
    let r = l.list(market, BUYER, NFT, Addr::Ata { wallet: SELLER, mint: NFT }, 1, None, NOW);
    assert_eq!(r, Err(MarketplaceError::Unauthorized));
}

#[test]
fn list_rejects_zero_price() {
    let (mut l, market) = native_market(250, 100);
    l.mint_to(SELLER, NFT, 1).unwrap();
    let r = l.list(market, SELLER, NFT, Addr::Ata { wallet: SELLER, mint: NFT }, 0, None, NOW);
    assert_eq!(r, Err(MarketplaceError::InvalidAmount));
}

#[test]
fn list_rejects_past_expiry() {
    let (mut l, market) = native_market(250, 100);
    l.mint_to(SELLER, NFT, 1).unwrap();
    let r = l.list(market, SELLER, NFT, Addr::Ata { wallet: SELLER, mint: NFT }, 5, Some(NOW - 1), NOW);
    assert_eq!(r, Err(MarketplaceError::InvalidExpiry));
}

#[test]
fn list_rejects_empty_asset_account() {
    let (mut l, market) = native_market(250, 100);
    l.mint_to(SELLER, NFT, 0).unwrap();
    let r = l.list(market, SELLER, NFT, Addr::Ata { wallet: SELLER, mint: NFT }, 5, None, NOW);
    assert_eq!(r, Err(MarketplaceError::InvalidAmount));
}

#[test]
fn list_unlist_round_trip() {
    let (mut l, market) = native_market(250, 100);
    listed(&mut l, market, 100, None);
    l.unlisting(market, SELLER, NFT, Addr::Ata { wallet: SELLER, mint: NFT }, NOW).unwrap();
    // custody is back with the owner and the record is gone entirely
    let custody = l.tokens.get(Addr::Ata { wallet: SELLER, mint: NFT }).unwrap();
    assert_eq!(custody.authority, Addr::Key(SELLER));
    assert_eq!(custody.amount, 1);
    assert!(l.listings.get(Addr::ListingRecord { nft_mint: NFT }).is_none());
    // the reserve came back too
    assert_eq!(*l.lamports.get(Addr::Key(SELLER)).unwrap(), 1_000_000);
}

#[test]
fn unlist_blocked_while_expiry_lies_ahead() {
    let (mut l, market) = native_market(250, 100);
    listed(&mut l, market, 100, Some(NOW + 50));
    let r = l.unlisting(market, SELLER, NFT, Addr::Ata { wallet: SELLER, mint: NFT }, NOW);
    assert_eq!(r, Err(MarketplaceError::InvalidExpiry));
    // once the expiry has passed, the listing becomes cancellable
    l.unlisting(market, SELLER, NFT, Addr::Ata { wallet: SELLER, mint: NFT }, NOW + 51).unwrap();
    assert!(l.listings.get(Addr::ListingRecord { nft_mint: NFT }).is_none());
}

#[test]
fn unlist_by_stranger_rejected() {
    let (mut l, market) = native_market(250, 100);
    listed(&mut l, market, 100, None);
    let r = l.unlisting(market, BUYER, NFT, Addr::Ata { wallet: SELLER, mint: NFT }, NOW);
    assert_eq!(r, Err(MarketplaceError::Unauthorized));
}

#[test]
fn buy_records_offer_and_updates_in_place() {
    let (mut l, market) = native_market(250, 100);
    l.buy(market, BUYER, NFT, 400, None, NOW).unwrap();
    let key = Addr::OfferRecord { nft_mint: NFT, buyer: BUYER };
    let rec = l.offers.get(key).unwrap();
    assert_eq!(rec.buyer, BUYER);
    assert_eq!(rec.price, 400);
    assert_eq!(rec.expiry, 0);
    assert_eq!(*l.lamports.get(Addr::Key(BUYER)).unwrap(), 1_000_000 - RES);
    // a repeated offer updates price and expiry without a second reserve
    l.buy(market, BUYER, NFT, 450, Some(NOW + 9), NOW).unwrap();
    let rec = l.offers.get(key).unwrap();
    assert_eq!(rec.price, 450);
    assert_eq!(rec.expiry, NOW + 9);
    assert_eq!(*l.lamports.get(Addr::Key(BUYER)).unwrap(), 1_000_000 - RES);
}

#[test]
fn buy_rejects_past_expiry() {
    let (mut l, market) = native_market(250, 100);
    let r = l.buy(market, BUYER, NFT, 400, Some(NOW - 1), NOW);
    assert_eq!(r, Err(MarketplaceError::InvalidExpiry));
}

#[test]
fn cancel_buy_round_trip_and_expiry_policy() {
    let (mut l, market) = native_market(250, 100);
    l.buy(market, BUYER, NFT, 400, Some(NOW + 20), NOW).unwrap();
    let key = Addr::OfferRecord { nft_mint: NFT, buyer: BUYER };
    let r = l.cancel_buy(market, BUYER, NFT, NOW);
    assert_eq!(r, Err(MarketplaceError::InvalidExpiry));
    l.cancel_buy(market, BUYER, NFT, NOW + 21).unwrap();
    assert!(l.offers.get(key).is_none());
    assert_eq!(*l.lamports.get(Addr::Key(BUYER)).unwrap(), 1_000_000);
}

#[test]
fn cancel_buy_without_offer_rejected() {
    let (mut l, market) = native_market(250, 100);
    let r = l.cancel_buy(market, BUYER, NFT, NOW);
    assert_eq!(r, Err(MarketplaceError::InvalidAccountInput));
}

#[test]
fn list_by_non_owner_of_asset_rejected() {
    let (mut l, market) = native_market(250, 100);
    l.mint_to(SELLER, NFT, 1).unwrap();
    // a stranger tries to list the seller's asset account
    let r = l.list(market, BUYER, NFT, Addr::Ata { wallet: SELLER, mint: NFT }, 5, None, NOW);
    assert_eq!(r, Err(MarketplaceError::InvalidOwner));
}

#[test]
fn deposit_on_unknown_marketplace_rejected() {
    let mut l = Ledger::new(RES);
    l.fund_wallet(BUYER, 1_000).unwrap();
    let market = Addr::Marketplace { creator: AUTH, treasury_mint: NATIVE_MINT };
    let r = l.deposit(market, BUYER, Addr::Key(BUYER), 100);
    assert_eq!(r, Err(MarketplaceError::InvalidAccountInput));
}
