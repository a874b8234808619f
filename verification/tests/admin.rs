//! Marketplace configuration: creation, updates, withdrawal.

use marketplace::addr::{Addr, NATIVE_MINT};
use marketplace::errors::MarketplaceError;
use marketplace::ledger::Ledger;

const AUTH: u64 = 1;
const OTHER: u64 = 9;
const COLL: u64 = 200;
const TMINT: u64 = 77;
const RES: u64 = 10;

fn native_market(fee: u16, disc: u16) -> (Ledger, Addr) {
    let mut l = Ledger::new(RES);
    l.fund_wallet(AUTH, 1_000_000).unwrap();
    let market = l
        .create_auction_house(AUTH, NATIVE_MINT, Addr::Key(AUTH), AUTH, fee, COLL, disc)
        .unwrap();
    (l, market)
}

#[test]
fn create_native_marketplace() {
    let (l, market) = native_market(250, 100);
    let c = l.configs.get(market).unwrap();
    assert_eq!(c.authority, AUTH);
    assert_eq!(c.creator, AUTH);
    assert_eq!(c.treasury_mint, NATIVE_MINT);
    assert_eq!(c.seller_fee_basis_points, 250);
    assert_eq!(c.discount_collection, COLL);
    assert_eq!(c.discount_basis_points, 100);
    assert_eq!(
        c.auction_house_treasury,
        Addr::Treasury { creator: AUTH, treasury_mint: NATIVE_MINT }
    );
    assert_eq!(c.treasury_withdrawal_destination, Addr::Key(AUTH));
}

#[test]
fn create_token_marketplace_creates_treasury_account() {
    let mut l = Ledger::new(RES);
    let dest = Addr::Ata { wallet: AUTH, mint: TMINT };
    let market = l
        .create_auction_house(AUTH, TMINT, dest, AUTH, 250, COLL, 100)
        .unwrap();
    let treasury = Addr::Treasury { creator: AUTH, treasury_mint: TMINT };
    let t = l.tokens.get(treasury).unwrap();
    assert_eq!(t.amount, 0);
    assert_eq!(t.mint, TMINT);
    assert_eq!(t.authority, market);
    let d = l.tokens.get(dest).unwrap();
    assert_eq!(d.authority, Addr::Key(AUTH));
    assert_eq!(d.amount, 0);
}

#[test]
fn create_rejects_fee_over_ten_thousand() {
    let mut l = Ledger::new(RES);
    let r = l.create_auction_house(AUTH, NATIVE_MINT, Addr::Key(AUTH), AUTH, 10001, COLL, 0);
    assert_eq!(r, Err(MarketplaceError::InvalidAmount));
}

#[test]
fn create_rejects_discount_above_fee() {
    let mut l = Ledger::new(RES);
    let r = l.create_auction_house(AUTH, NATIVE_MINT, Addr::Key(AUTH), AUTH, 250, COLL, 251);
    assert_eq!(r, Err(MarketplaceError::InvalidAmount));
}

#[test]
fn create_accepts_fee_at_bound() {
    let mut l = Ledger::new(RES);
    let r = l.create_auction_house(AUTH, NATIVE_MINT, Addr::Key(AUTH), AUTH, 10000, COLL, 10000);
    assert!(r.is_ok());
}

#[test]
fn create_twice_rejected() {
    let (mut l, _market) = native_market(250, 100);
    let r = l.create_auction_house(AUTH, NATIVE_MINT, Addr::Key(AUTH), AUTH, 300, COLL, 0);
    assert_eq!(r, Err(MarketplaceError::AlreadyInUse));
}

#[test]
fn create_rejects_mismatched_native_destination() {
    let mut l = Ledger::new(RES);
    let r = l.create_auction_house(AUTH, NATIVE_MINT, Addr::Key(OTHER), AUTH, 250, COLL, 0);
    assert_eq!(r, Err(MarketplaceError::InvalidPubkey));
}

#[test]
fn update_changes_fields() {
    let (mut l, market) = native_market(250, 100);
    l.update_auction_house(
        market,
        AUTH,
        AUTH,
        Some(300),
        Some(999),
        Some(200),
        Addr::Key(AUTH),
        AUTH,
    )
    .unwrap();
    let c = l.configs.get(market).unwrap();
    assert_eq!(c.seller_fee_basis_points, 300);
    assert_eq!(c.discount_collection, 999);
    assert_eq!(c.discount_basis_points, 200);
}

#[test]
fn update_rejects_discount_above_fee() {
    let (mut l, market) = native_market(250, 100);
    let r = l.update_auction_house(
        market,
        AUTH,
        AUTH,
        None,
        None,
        Some(251),
        Addr::Key(AUTH),
        AUTH,
    );
    assert_eq!(r, Err(MarketplaceError::InvalidAmount));
}

#[test]
fn update_rejects_fee_lowered_below_discount() {
    let (mut l, market) = native_market(250, 100);
    let r = l.update_auction_house(
        market,
        AUTH,
        AUTH,
        Some(50),
        None,
        None,
        Addr::Key(AUTH),
        AUTH,
    );
    assert_eq!(r, Err(MarketplaceError::InvalidAmount));
}

#[test]
fn update_requires_authority() {
    let (mut l, market) = native_market(250, 100);
    let r = l.update_auction_house(
        market,
        OTHER,
        OTHER,
        Some(300),
        None,
        None,
        Addr::Key(OTHER),
        OTHER,
    );
    assert_eq!(r, Err(MarketplaceError::Unauthorized));
}

#[test]
fn update_hands_over_authority() {
    let (mut l, market) = native_market(250, 100);
    l.update_auction_house(market, AUTH, OTHER, None, None, None, Addr::Key(AUTH), AUTH)
        .unwrap();
    assert_eq!(l.configs.get(market).unwrap().authority, OTHER);
    // the old authority is locked out now
    let r = l.update_auction_house(market, AUTH, AUTH, None, None, None, Addr::Key(AUTH), AUTH);
    assert_eq!(r, Err(MarketplaceError::Unauthorized));
}

#[test]
fn withdraw_requires_authority() {
    let (mut l, market) = native_market(250, 100);
    let r = l.withdraw_from_treasury(market, OTHER, 5);
    assert_eq!(r, Err(MarketplaceError::Unauthorized));
}

#[test]
fn withdraw_moves_native_funds() {
    let (mut l, market) = native_market(250, 100);
    // fund the treasury directly: fees would normally land here
    let treasury = Addr::Treasury { creator: AUTH, treasury_mint: NATIVE_MINT };
    l.lamports.entries.push((treasury, 40));
    let before = *l.lamports.get(Addr::Key(AUTH)).unwrap();
    l.withdraw_from_treasury(market, AUTH, 30).unwrap();
    assert_eq!(*l.lamports.get(treasury).unwrap(), 10);
    assert_eq!(*l.lamports.get(Addr::Key(AUTH)).unwrap(), before + 30);
}

#[test]
fn withdraw_rejects_overdraft() {
    let (mut l, market) = native_market(250, 100);
    let r = l.withdraw_from_treasury(market, AUTH, 1);
    assert_eq!(r, Err(MarketplaceError::NumericalOverflow));
}

#[test]
fn update_creates_missing_token_destination() {
    let mut l = Ledger::new(RES);
    let dest = Addr::Ata { wallet: AUTH, mint: TMINT };
    let market = l
        .create_auction_house(AUTH, TMINT, dest, AUTH, 250, COLL, 100)
        .unwrap();
    let new_dest = Addr::Ata { wallet: OTHER, mint: TMINT };
    l.update_auction_house(market, AUTH, AUTH, None, None, None, new_dest, OTHER)
        .unwrap();
    let d = l.tokens.get(new_dest).unwrap();
    assert_eq!(d.authority, Addr::Key(OTHER));
    assert_eq!(d.amount, 0);
    assert_eq!(
        l.configs.get(market).unwrap().treasury_withdrawal_destination,
        new_dest
    );
}

#[test]
fn withdraw_moves_token_funds() {
    let mut l = Ledger::new(RES);
    let dest = Addr::Ata { wallet: AUTH, mint: TMINT };
    let market = l
        .create_auction_house(AUTH, TMINT, dest, AUTH, 250, COLL, 100)
        .unwrap();
    let treasury = Addr::Treasury { creator: AUTH, treasury_mint: TMINT };
    // fees would normally accumulate here
    let i = l.tokens.entries.iter().position(|e| e.0 == treasury).unwrap();
    l.tokens.entries[i].1.amount = 40;
    l.withdraw_from_treasury(market, AUTH, 30).unwrap();
    assert_eq!(l.tokens.get(treasury).unwrap().amount, 10);
    assert_eq!(l.tokens.get(dest).unwrap().amount, 30);
}
