//! The settlement engine: fee distribution, discounts, custody transfer,
//! and the attack guards.

use marketplace::addr::{Addr, NATIVE_MINT};
use marketplace::errors::MarketplaceError;
use marketplace::execute_sale::{DiscountProof, ExecuteSale, SuppliedCreator};
use marketplace::ledger::Ledger;
use marketplace::states::{AssetMetadata, Collection, Creator, TokenAccount};

const AUTH: u64 = 1;
const SELLER: u64 = 2;
const BUYER: u64 = 3;
const CA: u64 = 4;
const CB: u64 = 5;
const COLL: u64 = 200;
const NFT: u64 = 100;
const DMINT: u64 = 201;
const TMINT: u64 = 77;
const RES: u64 = 10;
const NOW: u64 = 1_000;

fn ata(wallet: u64, mint: u64) -> Addr {
    Addr::Ata { wallet, mint }
}

fn nft_metadata() -> AssetMetadata {
    AssetMetadata {
        royalty_bps: 500,
        creators: Some(vec![
            Creator { address: CA, share: 70 },
            Creator { address: CB, share: 30 },
        ]),
        collection: None,
    }
}

/// A native marketplace with a listed asset (price 1000, royalty 5% split
/// 70/30) and a funded, matching offer.
fn native_sale_setup() -> (Ledger, Addr) {
    let mut l = Ledger::new(RES);
    l.fund_wallet(AUTH, 1_000_000).unwrap();
    l.fund_wallet(SELLER, 1_000_000).unwrap();
    l.fund_wallet(BUYER, 1_000_000).unwrap();
    let market = l
        .create_auction_house(AUTH, NATIVE_MINT, Addr::Key(AUTH), AUTH, 250, COLL, 100)
        .unwrap();
    l.mint_to(SELLER, NFT, 1).unwrap();
    l.set_metadata(NFT, nft_metadata());
    l.list(market, SELLER, NFT, ata(SELLER, NFT), 1000, None, NOW).unwrap();
    l.deposit(market, BUYER, Addr::Key(BUYER), 1000).unwrap();
    l.buy(market, BUYER, NFT, 1000, None, NOW).unwrap();
    (l, market)
}

fn native_sale_args(market: Addr) -> ExecuteSale {
    ExecuteSale {
        market,
        buyer: BUYER,
        seller: SELLER,
        nft_mint: NFT,
        nft_account: ata(SELLER, NFT),
        seller_payment_receipt_account: Addr::Key(SELLER),
        buyer_receipt_token_account: ata(BUYER, NFT),
        creator_accounts: vec![
            SuppliedCreator { address: CA, receipt: Addr::Key(CA) },
            SuppliedCreator { address: CB, receipt: Addr::Key(CB) },
        ],
        discount_proof: None,
    }
}

fn native_escrow(depositor: u64) -> Addr {
    Addr::Escrow { creator: AUTH, treasury_mint: NATIVE_MINT, depositor }
}

#[test]
fn native_sale_distributes_price_exactly() {
    let (mut l, market) = native_sale_setup();
    let res = l.execute_sale(&native_sale_args(market), NOW).unwrap();
    // price 1000, royalty 5% of 1000 = 50 split 70/30, fee 2.5% = 25
    assert_eq!(res.fee_paid, 25);
    assert_eq!(res.royalties, vec![35, 15]);
    assert_eq!(res.seller_net, 925);
    assert_eq!(res.dust, 0);
    assert_eq!(*l.lamports.get(Addr::Key(CA)).unwrap(), 35);
    assert_eq!(*l.lamports.get(Addr::Key(CB)).unwrap(), 15);
    let treasury = Addr::Treasury { creator: AUTH, treasury_mint: NATIVE_MINT };
    assert_eq!(*l.lamports.get(treasury).unwrap(), 25);
    // the seller gains the net proceeds and the returned listing reserve
    assert_eq!(*l.lamports.get(Addr::Key(SELLER)).unwrap(), 1_000_000 + 925);
    // the buyer paid the deposit and got the offer reserve back
    assert_eq!(*l.lamports.get(Addr::Key(BUYER)).unwrap(), 1_000_000 - RES - 1000);
    // the escrow is debited exactly the price, down to its reserve
    assert_eq!(*l.lamports.get(native_escrow(BUYER)).unwrap(), RES);
    // exactly one unit moved to the buyer
    assert_eq!(l.tokens.get(ata(BUYER, NFT)).unwrap().amount, 1);
    assert_eq!(l.tokens.get(ata(SELLER, NFT)).unwrap().amount, 0);
    // both records are closed
    assert!(l.listings.get(Addr::ListingRecord { nft_mint: NFT }).is_none());
    assert!(l.offers.get(Addr::OfferRecord { nft_mint: NFT, buyer: BUYER }).is_none());
}

#[test]
fn native_sale_with_discount_charges_reduced_fee() {
    let (mut l, market) = native_sale_setup();
    l.mint_to(BUYER, DMINT, 1).unwrap();
    l.set_metadata(
        DMINT,
        AssetMetadata {
            royalty_bps: 0,
            creators: None,
            collection: Some(Collection { key: COLL, verified: true }),
        },
    );
    let mut a = native_sale_args(market);
    a.discount_proof = Some(DiscountProof {
        mint: DMINT,
        token_account: ata(BUYER, DMINT),
        metadata_account: Addr::MetadataRecord { nft_mint: DMINT },
    });
    let res = l.execute_sale(&a, NOW).unwrap();
    assert_eq!(res.fee_paid, 10);
    assert_eq!(res.seller_net, 940);
    let treasury = Addr::Treasury { creator: AUTH, treasury_mint: NATIVE_MINT };
    assert_eq!(*l.lamports.get(treasury).unwrap(), 10);
    assert_eq!(*l.lamports.get(Addr::Key(SELLER)).unwrap(), 1_000_000 + 940);
}

#[test]
fn unverified_collection_membership_rejected() {
    let (mut l, market) = native_sale_setup();
    l.mint_to(BUYER, DMINT, 1).unwrap();
    l.set_metadata(
        DMINT,
        AssetMetadata {
            royalty_bps: 0,
            creators: None,
            collection: Some(Collection { key: COLL, verified: false }),
        },
    );
    let mut a = native_sale_args(market);
    a.discount_proof = Some(DiscountProof {
        mint: DMINT,
        token_account: ata(BUYER, DMINT),
        metadata_account: Addr::MetadataRecord { nft_mint: DMINT },
    });
    let r = l.execute_sale(&a, NOW);
    assert!(matches!(r, Err(MarketplaceError::InvalidDiscountAccount)));
}

#[test]
fn price_mismatch_rejected() {
    let (mut l, market) = native_sale_setup();
    l.buy(market, BUYER, NFT, 999, None, NOW).unwrap();
    let r = l.execute_sale(&native_sale_args(market), NOW);
    assert!(matches!(r, Err(MarketplaceError::InvalidAmount)));
    // nothing moved
    assert_eq!(*l.lamports.get(native_escrow(BUYER)).unwrap(), RES + 1000);
    assert!(l.listings.get(Addr::ListingRecord { nft_mint: NFT }).is_some());
}

#[test]
fn listing_with_future_expiry_cannot_settle_yet() {
    let (mut l, market) = native_sale_setup();
    l.list(market, SELLER, NFT, ata(SELLER, NFT), 1000, Some(NOW + 50), NOW).unwrap();
    let r = l.execute_sale(&native_sale_args(market), NOW);
    assert!(matches!(r, Err(MarketplaceError::InvalidExpiry)));
    // once expired, the pair settles
    assert!(l.execute_sale(&native_sale_args(market), NOW + 51).is_ok());
}

#[test]
fn missing_creator_account_rejected() {
    let (mut l, market) = native_sale_setup();
    let mut a = native_sale_args(market);
    a.creator_accounts.pop();
    let r = l.execute_sale(&a, NOW);
    assert!(matches!(r, Err(MarketplaceError::MissingCreator)));
}

#[test]
fn forged_creator_account_rejected() {
    let (mut l, market) = native_sale_setup();
    let mut a = native_sale_args(market);
    a.creator_accounts[1] = SuppliedCreator { address: BUYER, receipt: Addr::Key(BUYER) };
    let r = l.execute_sale(&a, NOW);
    assert!(matches!(r, Err(MarketplaceError::InvalidPubkey)));
}

#[test]
fn underfunded_escrow_rejected() {
    let (mut l, market) = native_sale_setup();
    // raise the price beyond what the escrow holds
    l.list(market, SELLER, NFT, ata(SELLER, NFT), 5000, None, NOW).unwrap();
    l.buy(market, BUYER, NFT, 5000, None, NOW).unwrap();
    let r = l.execute_sale(&native_sale_args(market), NOW);
    assert!(matches!(r, Err(MarketplaceError::NumericalOverflow)));
    assert_eq!(*l.lamports.get(native_escrow(BUYER)).unwrap(), RES + 1000);
}

#[test]
fn royalty_rate_beyond_price_rejected() {
    let (mut l, market) = native_sale_setup();
    l.set_metadata(
        NFT,
        AssetMetadata { royalty_bps: 20000, creators: None, collection: None },
    );
    let r = l.execute_sale(&native_sale_args(market), NOW);
    assert!(matches!(r, Err(MarketplaceError::NumericalOverflow)));
}

#[test]
fn legacy_escrow_shortfall_charged_to_buyer() {
    let (mut l, market) = native_sale_setup();
    // a legacy escrow predating the reserve policy: exactly the price, no
    // reserve on top
    let escrow = native_escrow(BUYER);
    let i = l.lamports.entries.iter().position(|e| e.0 == escrow).unwrap();
    l.lamports.entries[i].1 = 1000;
    let buyer_before = *l.lamports.get(Addr::Key(BUYER)).unwrap();
    l.execute_sale(&native_sale_args(market), NOW).unwrap();
    // the buyer covered the reserve shortfall, capped at the reserve
    assert_eq!(*l.lamports.get(escrow).unwrap(), RES);
    assert_eq!(*l.lamports.get(Addr::Key(BUYER)).unwrap(), buyer_before - RES + RES);
}

#[test]
fn no_creators_means_dust_stays_with_seller() {
    let (mut l, market) = native_sale_setup();
    l.set_metadata(NFT, AssetMetadata { royalty_bps: 500, creators: None, collection: None });
    let res = l.execute_sale(&native_sale_args(market), NOW).unwrap();
    assert_eq!(res.royalties, Vec::<u64>::new());
    assert_eq!(res.dust, 50);
    // the whole royalty base folds back into the seller's net
    assert_eq!(res.seller_net, 975);
    assert_eq!(*l.lamports.get(Addr::Key(SELLER)).unwrap(), 1_000_000 + 975);
}

#[test]
fn truncated_shares_leave_dust_to_seller() {
    let (mut l, market) = native_sale_setup();
    // 3% of 1000 = 30; shares 33+33 leave 9+9, dust 30-18=12... shares of 33%
    // of 30 truncate to 9 each
    l.set_metadata(
        NFT,
        AssetMetadata {
            royalty_bps: 300,
            creators: Some(vec![
                Creator { address: CA, share: 33 },
                Creator { address: CB, share: 33 },
            ]),
            collection: None,
        },
    );
    let res = l.execute_sale(&native_sale_args(market), NOW).unwrap();
    assert_eq!(res.royalties, vec![9, 9]);
    assert_eq!(res.dust, 12);
    // net = 1000 - 18 - 25 = 957: the dust is in there, not lost
    assert_eq!(res.seller_net, 957);
    assert_eq!(*l.lamports.get(Addr::Key(CA)).unwrap(), 9);
}

/// A token marketplace with a listed asset and a funded, matching offer.
fn token_sale_setup() -> (Ledger, Addr) {
    let mut l = Ledger::new(RES);
    l.fund_wallet(SELLER, 1_000_000).unwrap();
    l.fund_wallet(BUYER, 1_000_000).unwrap();
    let market = l
        .create_auction_house(AUTH, TMINT, ata(AUTH, TMINT), AUTH, 250, COLL, 100)
        .unwrap();
    l.mint_to(SELLER, NFT, 1).unwrap();
    l.set_metadata(NFT, nft_metadata());
    l.list(market, SELLER, NFT, ata(SELLER, NFT), 1000, None, NOW).unwrap();
    l.mint_to(BUYER, TMINT, 5_000).unwrap();
    l.deposit(market, BUYER, ata(BUYER, TMINT), 1000).unwrap();
    l.buy(market, BUYER, NFT, 1000, None, NOW).unwrap();
    (l, market)
}

fn token_sale_args(market: Addr) -> ExecuteSale {
    ExecuteSale {
        market,
        buyer: BUYER,
        seller: SELLER,
        nft_mint: NFT,
        nft_account: ata(SELLER, NFT),
        seller_payment_receipt_account: ata(SELLER, TMINT),
        buyer_receipt_token_account: ata(BUYER, NFT),
        creator_accounts: vec![
            SuppliedCreator { address: CA, receipt: ata(CA, TMINT) },
            SuppliedCreator { address: CB, receipt: ata(CB, TMINT) },
        ],
        discount_proof: None,
    }
}

#[test]
fn token_sale_distributes_price_exactly() {
    let (mut l, market) = token_sale_setup();
    let res = l.execute_sale(&token_sale_args(market), NOW).unwrap();
    assert_eq!(res.fee_paid, 25);
    assert_eq!(res.royalties, vec![35, 15]);
    assert_eq!(res.seller_net, 925);
    // creator receipt accounts were created on the fly and paid
    assert_eq!(l.tokens.get(ata(CA, TMINT)).unwrap().amount, 35);
    assert_eq!(l.tokens.get(ata(CB, TMINT)).unwrap().amount, 15);
    let treasury = Addr::Treasury { creator: AUTH, treasury_mint: TMINT };
    assert_eq!(l.tokens.get(treasury).unwrap().amount, 25);
    assert_eq!(l.tokens.get(ata(SELLER, TMINT)).unwrap().amount, 925);
    let escrow = Addr::Escrow { creator: AUTH, treasury_mint: TMINT, depositor: BUYER };
    assert_eq!(l.tokens.get(escrow).unwrap().amount, 0);
    assert_eq!(l.tokens.get(ata(BUYER, NFT)).unwrap().amount, 1);
    assert_eq!(l.tokens.get(ata(SELLER, NFT)).unwrap().amount, 0);
    // the record reserves went back to their owners
    assert_eq!(*l.lamports.get(Addr::Key(SELLER)).unwrap(), 1_000_000);
    assert_eq!(*l.lamports.get(Addr::Key(BUYER)).unwrap(), 1_000_000);
}

#[test]
fn buyer_receipt_with_delegate_rejected() {
    let (mut l, market) = token_sale_setup();
    l.tokens.entries.push((
        ata(BUYER, NFT),
        TokenAccount { authority: Addr::Key(BUYER), mint: NFT, amount: 0, delegate: Some(99) },
    ));
    let r = l.execute_sale(&token_sale_args(market), NOW);
    assert!(matches!(r, Err(MarketplaceError::BuyerATACannotHaveDelegate)));
}

#[test]
fn seller_receipt_with_delegate_rejected() {
    let (mut l, market) = token_sale_setup();
    l.tokens.entries.push((
        ata(SELLER, TMINT),
        TokenAccount { authority: Addr::Key(SELLER), mint: TMINT, amount: 0, delegate: Some(99) },
    ));
    let r = l.execute_sale(&token_sale_args(market), NOW);
    assert!(matches!(r, Err(MarketplaceError::SellerATACannotHaveDelegate)));
}

#[test]
fn hijacked_seller_receipt_rejected() {
    let (mut l, market) = token_sale_setup();
    // an account sitting at the seller's receipt address but owned by
    // somebody else
    l.tokens.entries.push((
        ata(SELLER, TMINT),
        TokenAccount { authority: Addr::Key(BUYER), mint: TMINT, amount: 0, delegate: None },
    ));
    let r = l.execute_sale(&token_sale_args(market), NOW);
    assert!(matches!(r, Err(MarketplaceError::InvalidPubkey)));
}

#[test]
fn forged_receipt_address_rejected() {
    let (mut l, market) = token_sale_setup();
    let mut a = token_sale_args(market);
    // the attacker routes the seller's payment to their own account
    a.seller_payment_receipt_account = ata(BUYER, TMINT);
    let r = l.execute_sale(&a, NOW);
    assert!(matches!(r, Err(MarketplaceError::InvalidPubkey)));
}

#[test]
fn custody_not_held_by_vault_rejected() {
    let (mut l, market) = token_sale_setup();
    // undo the custody hand-over behind the engine's back
    let custody = ata(SELLER, NFT);
    let i = l.tokens.entries.iter().position(|e| e.0 == custody).unwrap();
    l.tokens.entries[i].1.authority = Addr::Key(SELLER);
    let r = l.execute_sale(&token_sale_args(market), NOW);
    assert!(matches!(r, Err(MarketplaceError::InvalidPubkey)));
}

#[test]
fn wrong_seller_rejected() {
    let (mut l, market) = native_sale_setup();
    let mut a = native_sale_args(market);
    // the caller names somebody else as the seller
    a.seller = CA;
    a.nft_account = ata(CA, NFT);
    a.seller_payment_receipt_account = Addr::Key(CA);
    let r = l.execute_sale(&a, NOW);
    assert!(matches!(r, Err(MarketplaceError::InvalidOwner)));
}

#[test]
fn forged_custody_address_rejected() {
    let (mut l, market) = native_sale_setup();
    let mut a = native_sale_args(market);
    a.nft_account = ata(BUYER, NFT);
    let r = l.execute_sale(&a, NOW);
    assert!(matches!(r, Err(MarketplaceError::InvalidPubkey)));
}

#[test]
fn sale_without_offer_rejected() {
    let (mut l, market) = native_sale_setup();
    l.cancel_buy(market, BUYER, NFT, NOW).unwrap();
    let r = l.execute_sale(&native_sale_args(market), NOW);
    assert!(matches!(r, Err(MarketplaceError::InvalidAccountInput)));
}

#[test]
fn missing_metadata_rejected() {
    let (mut l, market) = native_sale_setup();
    let i = l
        .metadata
        .entries
        .iter()
        .position(|e| e.0 == Addr::MetadataRecord { nft_mint: NFT })
        .unwrap();
    l.metadata.entries.remove(i);
    let r = l.execute_sale(&native_sale_args(market), NOW);
    assert!(matches!(r, Err(MarketplaceError::InvalidAccountInput)));
}

#[test]
fn overcommitted_shares_rejected() {
    let (mut l, market) = native_sale_setup();
    // shares summing over 100 per cent would overdraw the royalty base
    l.set_metadata(
        NFT,
        AssetMetadata {
            royalty_bps: 500,
            creators: Some(vec![
                Creator { address: CA, share: 80 },
                Creator { address: CB, share: 80 },
            ]),
            collection: None,
        },
    );
    let mut a = native_sale_args(market);
    a.creator_accounts = vec![
        SuppliedCreator { address: CA, receipt: Addr::Key(CA) },
        SuppliedCreator { address: CB, receipt: Addr::Key(CB) },
    ];
    let r = l.execute_sale(&a, NOW);
    assert!(matches!(r, Err(MarketplaceError::NumericalOverflow)));
}
