//! The laws of the marketplace, stated and proved over the contracts of the
//! operations.

use vstd::prelude::*;

use crate::addr::Addr;
use crate::execute_sale::{
    sale_base, sale_buyer_receipt, sale_config, sale_creators, sale_custody, sale_cuts_total,
    sale_escrow, sale_fee, sale_is_native, sale_lamports_final, sale_lamports_mid,
    sale_native_items, sale_net, sale_price, sale_shortfall, sale_token_items,
    sale_tokens_final, sale_tokens_paid, spec_sale_ok, ExecuteSale, LedgerView,
};
use crate::fees::{spec_cuts_sum, spec_share_cut};
use crate::ledger::{
    spec_lamport_credit, spec_lamport_debit, spec_lamport_fold, spec_lamports_of, spec_token_debit,
    spec_token_fold, wf_escrow_reserve, Ledger,
};
use crate::states::TokenAccount;

verus! {

/// A native credit chain leaves a balance alone when no item targets it.
pub proof fn lemma_lamport_fold_untouched(m: Map<Addr, u64>, items: Seq<(Addr, u64)>, x: Addr)
    requires
        forall|j: int| 0 <= j < items.len() ==> (#[trigger] items[j]).0 != x,
    ensures
        spec_lamport_fold(m, items).0.contains_key(x) == m.contains_key(x),
        spec_lamports_of(spec_lamport_fold(m, items).0, x) == spec_lamports_of(m, x),
    decreases items.len(),
{
    if items.len() > 0 {
        assert(items[items.len() - 1].0 != x);
        assert forall|j: int| 0 <= j < items.drop_last().len() implies (#[trigger] items.drop_last()[j]).0
            != x by {
            assert(items.drop_last()[j] == items[j]);
        }
        lemma_lamport_fold_untouched(m, items.drop_last(), x);
    }
}

/// In a native credit chain within bounds whose other items never target
/// item `t`'s address, that address gains exactly item `t`'s amount.
pub proof fn lemma_lamport_fold_target(m: Map<Addr, u64>, items: Seq<(Addr, u64)>, t: int)
    requires
        spec_lamport_fold(m, items).1,
        0 <= t < items.len(),
        forall|j: int| 0 <= j < items.len() && j != t ==> (#[trigger] items[j]).0 != items[t].0,
    ensures
        spec_lamports_of(spec_lamport_fold(m, items).0, items[t].0) == spec_lamports_of(
            m,
            items[t].0,
        ) + items[t].1,
    decreases items.len(),
{
    let x = items[t].0;
    if t == items.len() - 1 {
        assert forall|j: int| 0 <= j < items.drop_last().len() implies (#[trigger] items.drop_last()[j]).0
            != x by {
            assert(items.drop_last()[j] == items[j]);
        }
        lemma_lamport_fold_untouched(m, items.drop_last(), x);
    } else {
        assert forall|j: int| 0 <= j < items.drop_last().len() && j != t implies (
        #[trigger] items.drop_last()[j]).0 != items.drop_last()[t].0 by {
            assert(items.drop_last()[j] == items[j]);
            assert(items.drop_last()[t] == items[t]);
        }
        assert(items.drop_last()[t] == items[t]);
        lemma_lamport_fold_target(m, items.drop_last(), t);
        assert(items[items.len() - 1].0 != x);
    }
}

/// A token credit chain leaves an account alone when no item targets it.
pub proof fn lemma_token_fold_untouched(
    m: Map<Addr, TokenAccount>,
    items: Seq<(Addr, TokenAccount, u64)>,
    x: Addr,
)
    requires
        forall|j: int| 0 <= j < items.len() ==> (#[trigger] items[j]).0 != x,
    ensures
        spec_token_fold(m, items).0.contains_key(x) == m.contains_key(x),
        m.contains_key(x) ==> spec_token_fold(m, items).0[x] == m[x],
    decreases items.len(),
{
    if items.len() > 0 {
        assert(items[items.len() - 1].0 != x);
        assert forall|j: int| 0 <= j < items.drop_last().len() implies (#[trigger] items.drop_last()[j]).0
            != x by {
            assert(items.drop_last()[j] == items[j]);
        }
        lemma_token_fold_untouched(m, items.drop_last(), x);
    }
}

/// In a token credit chain within bounds whose other items never target item
/// `t`'s address, that address ends up holding its prior balance (or the
/// item's template balance when created) plus exactly item `t`'s amount.
pub proof fn lemma_token_fold_target(
    m: Map<Addr, TokenAccount>,
    items: Seq<(Addr, TokenAccount, u64)>,
    t: int,
)
    requires
        spec_token_fold(m, items).1,
        0 <= t < items.len(),
        forall|j: int| 0 <= j < items.len() && j != t ==> (#[trigger] items[j]).0 != items[t].0,
    ensures
        spec_token_fold(m, items).0.contains_key(items[t].0),
        spec_token_fold(m, items).0[items[t].0].amount == (if m.contains_key(items[t].0) {
            m[items[t].0].amount as int
        } else {
            items[t].1.amount as int
        }) + items[t].2,
    decreases items.len(),
{
    let x = items[t].0;
    if t == items.len() - 1 {
        assert forall|j: int| 0 <= j < items.drop_last().len() implies (#[trigger] items.drop_last()[j]).0
            != x by {
            assert(items.drop_last()[j] == items[j]);
        }
        lemma_token_fold_untouched(m, items.drop_last(), x);
    } else {
        assert forall|j: int| 0 <= j < items.drop_last().len() && j != t implies (
        #[trigger] items.drop_last()[j]).0 != items.drop_last()[t].0 by {
            assert(items.drop_last()[j] == items[j]);
            assert(items.drop_last()[t] == items[t]);
        }
        assert(items.drop_last()[t] == items[t]);
        lemma_token_fold_target(m, items.drop_last(), t);
        assert(items[items.len() - 1].0 != x);
    }
}

/// Law: every marketplace configuration on a well-formed ledger satisfies
/// `discount_basis_points <= seller_fee_basis_points <= 10000`. Since every
/// operation's contract preserves well-formedness, the bound is enforced on
/// creation and on every update.
pub proof fn lemma_config_fee_bounds(l: Ledger, market: Addr)
    requires
        l.wf(),
        l.configs@.contains_key(market),
    ensures
        l.configs@[market].discount_basis_points <= l.configs@[market].seller_fee_basis_points,
        l.configs@[market].seller_fee_basis_points <= 10000,
{
}

/// Law: on a well-formed ledger, the native balance of every escrow account
/// of a native-rail marketplace lies at or above the minimum reserve. Since
/// every operation's contract preserves well-formedness, no operation that
/// leaves the escrow account alive can take it below the reserve.
pub proof fn lemma_escrow_reserve_floor(l: Ledger, escrow: Addr)
    requires
        l.wf(),
        l.lamports@.contains_key(escrow),
        escrow matches Addr::Escrow { creator, treasury_mint, depositor }
            && treasury_mint == crate::addr::NATIVE_MINT,
    ensures
        l.lamports@[escrow] >= l.min_reserve,
{
    assert(wf_escrow_reserve(escrow, l.lamports@[escrow], l.min_reserve));
}

/// Law: a successful token-rail settlement distributes the price exactly.
/// With pairwise distinct creators, none of them the seller, and an asset
/// mint different from the currency mint:
/// the seller's receipt account gains the net proceeds (price less royalty
/// cuts less the charged protocol fee, so royalty dust accrues to the
/// seller); the treasury gains the protocol fee; each creator's receipt
/// account gains its truncated share of the royalty base; the escrow loses
/// exactly the price; custody loses exactly one unit of the asset and the
/// buyer's receipt account gains exactly one.
pub proof fn lemma_sale_distribution_token(v: LedgerView, a: ExecuteSale, now: u64)
    requires
        spec_sale_ok(v, a, now),
        !sale_is_native(v, a),
        crate::ledger::wf_config(a.market, sale_config(v, a)),
        a.nft_mint != sale_config(v, a).treasury_mint,
        forall|i: int, j: int| 0 <= i < j < sale_creators(v, a).len()
            ==> (#[trigger] sale_creators(v, a)[i]).address
            != (#[trigger] sale_creators(v, a)[j]).address,
        forall|i: int| 0 <= i < sale_creators(v, a).len()
            ==> (#[trigger] sale_creators(v, a)[i]).address != a.seller,
    ensures
        ({
            let m = sale_tokens_final(v, a);
            let c = sale_config(v, a);
            let sr = Addr::Ata { wallet: a.seller, mint: c.treasury_mint };
            let treasury = c.auction_house_treasury;
            let escrow = sale_escrow(v, a);
            let custody = sale_custody(a);
            let brt = sale_buyer_receipt(a);
            let cs = sale_creators(v, a);
            let base = sale_base(v, a) as u64;
            &&& sale_net(v, a) + sale_fee(v, a) + sale_cuts_total(v, a) == sale_price(v, a)
            &&& m.contains_key(sr)
            &&& m[sr].amount == (if v.tokens.contains_key(sr) {
                v.tokens[sr].amount as int
            } else {
                0
            }) + sale_net(v, a)
            &&& m.contains_key(treasury)
            &&& m[treasury].amount == v.tokens[treasury].amount + sale_fee(v, a)
            &&& forall|i: int| 0 <= i < cs.len() ==> {
                let r = Addr::Ata { wallet: (#[trigger] cs[i]).address, mint: c.treasury_mint };
                &&& m.contains_key(r)
                &&& m[r].amount == (if v.tokens.contains_key(r) {
                    v.tokens[r].amount as int
                } else {
                    0
                }) + spec_share_cut(base, cs[i].share)
            }
            &&& m.contains_key(escrow)
            &&& m[escrow].amount == v.tokens[escrow].amount - sale_price(v, a)
            &&& m.contains_key(custody)
            &&& m[custody].amount == v.tokens[custody].amount - 1
            &&& m.contains_key(brt)
            &&& m[brt].amount == (if v.tokens.contains_key(brt) {
                v.tokens[brt].amount as int
            } else {
                0
            }) + 1
        }),
{
    let c = sale_config(v, a);
    let tmint = c.treasury_mint;
    let cs = sale_creators(v, a);
    let n = cs.len() as int;
    let base = sale_base(v, a) as u64;
    let price = sale_price(v, a);
    let escrow = sale_escrow(v, a);
    let custody = sale_custody(a);
    let brt = sale_buyer_receipt(a);
    let sr = Addr::Ata { wallet: a.seller, mint: tmint };
    let treasury = c.auction_house_treasury;
    let m1 = spec_token_debit(v.tokens, escrow, price);
    let items = sale_token_items(v, a);
    let mc = spec_token_fold(m1, items).0;
    assert(mc == sale_tokens_paid(v, a));
    crate::fees::lemma_cuts_sum_nonneg(base, cs, n);
    crate::fees::lemma_bps_fee_bounds(
        price,
        crate::fees::spec_applied_bps(
            c.seller_fee_basis_points,
            c.discount_basis_points,
            a.discount_proof is Some,
        ),
    );
    assert(0 <= sale_fee(v, a) <= price);
    assert(0 <= sale_cuts_total(v, a) <= base);
    // the payment targets are pairwise distinct
    assert forall|i: int, j: int| 0 <= i < items.len() && 0 <= j < items.len() && i != j implies (
    #[trigger] items[i]).0 != (#[trigger] items[j]).0 by {}
    // the seller's receipt
    assert(items[n + 1].0 == sr);
    lemma_token_fold_target(m1, items, n + 1);
    // the treasury
    assert(items[n].0 == treasury);
    lemma_token_fold_target(m1, items, n);
    // each creator
    assert forall|i: int| 0 <= i < cs.len() implies {
        let r = Addr::Ata { wallet: (#[trigger] cs[i]).address, mint: tmint };
        &&& mc.contains_key(r)
        &&& mc[r].amount == (if m1.contains_key(r) {
            m1[r].amount as int
        } else {
            0
        }) + spec_share_cut(base, cs[i].share)
    } by {
        assert(items[i].0 == (Addr::Ata { wallet: cs[i].address, mint: tmint }));
        crate::fees::lemma_share_cut_nonneg(base, cs[i].share);
        crate::fees::lemma_cuts_sum_nonneg(base, cs, i);
        assert(spec_cuts_sum(base, cs, i + 1) == spec_cuts_sum(base, cs, i) + spec_share_cut(
            base,
            cs[i].share,
        ));
        assert(spec_share_cut(base, cs[i].share) <= spec_cuts_sum(base, cs, n));
        lemma_token_fold_target(m1, items, i);
    }
    // the escrow, custody and buyer receipt are not payment targets
    assert forall|j: int| 0 <= j < items.len() implies (#[trigger] items[j]).0 != escrow by {}
    lemma_token_fold_untouched(m1, items, escrow);
    assert forall|j: int| 0 <= j < items.len() implies (#[trigger] items[j]).0 != custody by {}
    lemma_token_fold_untouched(m1, items, custody);
    assert forall|j: int| 0 <= j < items.len() implies (#[trigger] items[j]).0 != brt by {}
    lemma_token_fold_untouched(m1, items, brt);
}

/// Law: a successful native-rail settlement distributes the price exactly.
/// With pairwise distinct creators, none of them the seller or the buyer:
/// the seller's wallet gains the net proceeds plus the listing's returned
/// reserve; the treasury gains the protocol fee; each creator's wallet gains
/// its truncated share of the royalty base; the escrow ends at its balance
/// plus the buyer's top-up less the price; and the buyer's wallet pays the
/// top-up and regains the offer's reserve.
pub proof fn lemma_sale_distribution_native(v: LedgerView, a: ExecuteSale, now: u64)
    requires
        spec_sale_ok(v, a, now),
        sale_is_native(v, a),
        crate::ledger::wf_config(a.market, sale_config(v, a)),
        a.seller != a.buyer,
        forall|i: int, j: int| 0 <= i < j < sale_creators(v, a).len()
            ==> (#[trigger] sale_creators(v, a)[i]).address
            != (#[trigger] sale_creators(v, a)[j]).address,
        forall|i: int| 0 <= i < sale_creators(v, a).len()
            ==> (#[trigger] sale_creators(v, a)[i]).address != a.seller
            && sale_creators(v, a)[i].address != a.buyer,
    ensures
        ({
            let m = sale_lamports_final(v, a);
            let c = sale_config(v, a);
            let treasury = c.auction_house_treasury;
            let escrow = sale_escrow(v, a);
            let cs = sale_creators(v, a);
            let base = sale_base(v, a) as u64;
            let s = sale_shortfall(v, a);
            &&& sale_net(v, a) + sale_fee(v, a) + sale_cuts_total(v, a) == sale_price(v, a)
            &&& spec_lamports_of(m, Addr::Key(a.seller)) == spec_lamports_of(
                v.lamports,
                Addr::Key(a.seller),
            ) + sale_net(v, a) + v.min_reserve
            &&& spec_lamports_of(m, treasury) == spec_lamports_of(v.lamports, treasury)
                + sale_fee(v, a)
            &&& forall|i: int| 0 <= i < cs.len()
                ==> spec_lamports_of(m, Addr::Key((#[trigger] cs[i]).address)) == spec_lamports_of(
                v.lamports,
                Addr::Key(cs[i].address),
            ) + spec_share_cut(base, cs[i].share)
            &&& spec_lamports_of(m, escrow) == spec_lamports_of(v.lamports, escrow) + s
                - sale_price(v, a)
            &&& spec_lamports_of(m, Addr::Key(a.buyer)) == spec_lamports_of(
                v.lamports,
                Addr::Key(a.buyer),
            ) - s + v.min_reserve
            &&& sale_tokens_final(v, a)[sale_custody(a)].amount == v.tokens[sale_custody(
                a,
            )].amount - 1
            &&& sale_tokens_final(v, a)[sale_buyer_receipt(a)].amount == (if v.tokens.contains_key(
                sale_buyer_receipt(a),
            ) {
                v.tokens[sale_buyer_receipt(a)].amount as int
            } else {
                0
            }) + 1
        }),
{
    let c = sale_config(v, a);
    let cs = sale_creators(v, a);
    let n = cs.len() as int;
    let base = sale_base(v, a) as u64;
    let price = sale_price(v, a);
    let escrow = sale_escrow(v, a);
    let treasury = c.auction_house_treasury;
    let s = sale_shortfall(v, a) as u64;
    let m1 = sale_lamports_mid(v, a);
    let items = sale_native_items(v, a);
    let m = spec_lamport_fold(m1, items).0;
    crate::fees::lemma_cuts_sum_nonneg(base, cs, n);
    crate::fees::lemma_bps_fee_bounds(
        price,
        crate::fees::spec_applied_bps(
            c.seller_fee_basis_points,
            c.discount_basis_points,
            a.discount_proof is Some,
        ),
    );
    assert(0 <= sale_fee(v, a) <= price);
    assert(0 <= sale_cuts_total(v, a) <= base);
    // balances after top-up and escrow debit
    assert(escrow != (Addr::Key(a.buyer)));
    assert(spec_lamports_of(m1, escrow) == spec_lamports_of(v.lamports, escrow) + s - price);
    assert(spec_lamports_of(m1, Addr::Key(a.buyer)) == spec_lamports_of(
        v.lamports,
        Addr::Key(a.buyer),
    ) - s);
    // the treasury
    assert(items[n].0 == treasury);
    assert forall|j: int| 0 <= j < items.len() && j != n implies (#[trigger] items[j]).0
        != items[n].0 by {}
    lemma_lamport_fold_target(m1, items, n);
    // each creator
    assert forall|i: int| 0 <= i < cs.len() implies spec_lamports_of(
        m,
        Addr::Key((#[trigger] cs[i]).address),
    ) == spec_lamports_of(v.lamports, Addr::Key(cs[i].address)) + spec_share_cut(
        base,
        cs[i].share,
    ) by {
        assert(items[i].0 == (Addr::Key(cs[i].address)));
        crate::fees::lemma_share_cut_nonneg(base, cs[i].share);
        crate::fees::lemma_cuts_sum_nonneg(base, cs, i);
        assert(spec_cuts_sum(base, cs, i + 1) == spec_cuts_sum(base, cs, i) + spec_share_cut(
            base,
            cs[i].share,
        ));
        assert(spec_share_cut(base, cs[i].share) <= spec_cuts_sum(base, cs, n));
        assert forall|j: int| 0 <= j < items.len() && j != i implies (#[trigger] items[j]).0
            != items[i].0 by {}
        lemma_lamport_fold_target(m1, items, i);
        assert(spec_lamports_of(m1, Addr::Key(cs[i].address)) == spec_lamports_of(
            v.lamports,
            Addr::Key(cs[i].address),
        ));
    }
    // the escrow is never a payment target
    assert forall|j: int| 0 <= j < items.len() implies (#[trigger] items[j]).0 != escrow by {}
    lemma_lamport_fold_untouched(m1, items, escrow);
    // the seller receives the net proceeds and then the listing reserve;
    // the buyer receives the offer reserve last
    let items_a = items.take(n + 2);
    assert(items_a.drop_last() =~= items.take(n + 1));
    let ma = spec_lamport_fold(m1, items_a).0;
    assert(spec_lamport_fold(m1, items.take(items.len() as int)) == spec_lamport_fold(m1, items))
        by {
        assert(items.take(items.len() as int) =~= items);
    }
    crate::ledger::lemma_lamport_fold_ok_prefix(m1, items, n + 2, items.len() as int);
    assert forall|j: int| 0 <= j < items_a.len() && j != n + 1 implies (#[trigger] items_a[j]).0
        != items_a[n + 1].0 by {
        assert(items_a[j] == items[j]);
        assert(items_a[n + 1] == items[n + 1]);
    }
    assert(items_a[n + 1] == items[n + 1]);
    lemma_lamport_fold_target(m1, items_a, n + 1);
    assert forall|j: int| 0 <= j < items_a.len() implies (#[trigger] items_a[j]).0 != (Addr::Key(
        a.buyer,
    )) by {
        assert(items_a[j] == items[j]);
    }
    lemma_lamport_fold_untouched(m1, items_a, Addr::Key(a.buyer));
    // unfold the last two reserve credits
    assert(items.take(n + 3).drop_last() =~= items.take(n + 2));
    assert(items.take(n + 4).drop_last() =~= items.take(n + 3));
    assert(items.take(n + 4) =~= items);
    let mb = spec_lamport_fold(m1, items.take(n + 3)).0;
    assert(mb == spec_lamport_credit(ma, Addr::Key(a.seller), v.min_reserve));
    assert(m == spec_lamport_credit(mb, Addr::Key(a.buyer), v.min_reserve));
    // the asset moves: one unit from custody to the buyer's receipt account
    assert(sale_custody(a) != sale_buyer_receipt(a));
    assert(sale_tokens_paid(v, a) == v.tokens);
}

/// Law: a repeated `list` on an active record updates only price and
/// expiry. Composed with the first call's effect: over the two calls,
/// custody moves exactly once, the record keeps its owner and asset, and
/// only one reserve is taken.
pub proof fn lemma_repeat_list_updates_price_only(
    tokens: Map<Addr, TokenAccount>,
    lamports: Map<Addr, u64>,
    listings: Map<Addr, crate::states::ListingAccount>,
    seller: u64,
    nft_mint: u64,
    nft_account: Addr,
    treasury: Addr,
    price1: u64,
    expiry1: u64,
    price2: u64,
    expiry2: u64,
    reserve: u64,
)
    requires
        tokens.contains_key(nft_account),
        !listings.contains_key(Addr::ListingRecord { nft_mint }),
        spec_lamports_of(lamports, Addr::Key(seller)) >= reserve,
    ensures
        ({
            let key = Addr::ListingRecord { nft_mint };
            // the first call's effect, per the contract of `list` on a
            // fresh record
            let rec1 = crate::states::ListingAccount {
                owner: seller,
                nft_mint,
                price: price1,
                expiry: expiry1,
            };
            let tokens1 = tokens.insert(
                nft_account,
                TokenAccount { authority: treasury, ..tokens[nft_account] },
            );
            let lamports1 = spec_lamport_debit(lamports, Addr::Key(seller), reserve);
            let listings1 = listings.insert(key, rec1);
            // the second call's effect, per the contract of `list` on an
            // active record: price and expiry only
            let listings2 = listings1.insert(
                key,
                crate::states::ListingAccount { price: price2, expiry: expiry2, ..listings1[key] },
            );
            &&& listings2[key] == (crate::states::ListingAccount {
                owner: seller,
                nft_mint,
                price: price2,
                expiry: expiry2,
            })
            &&& listings2.dom() == listings1.dom()
            // custody and balances are exactly those after the first call:
            // the second call transfers nothing
            &&& tokens1[nft_account].authority == treasury
            &&& spec_lamports_of(lamports1, Addr::Key(seller)) == spec_lamports_of(
                lamports,
                Addr::Key(seller),
            ) - reserve
        }),
{
    let key = Addr::ListingRecord { nft_mint };
    let rec1 = crate::states::ListingAccount {
        owner: seller,
        nft_mint,
        price: price1,
        expiry: expiry1,
    };
    let listings1 = listings.insert(key, rec1);
    assert(listings1.insert(
        key,
        crate::states::ListingAccount { price: price2, expiry: expiry2, ..listings1[key] },
    ).dom() =~= listings1.dom());
}

/// Law: `list` on a fresh record followed by `unlisting` (once the expiry
/// policy permits) returns custody to the original owner, returns the
/// reserve, and removes the record entirely: the ledger is exactly as
/// before.
pub proof fn lemma_list_unlist_round_trip(
    tokens: Map<Addr, TokenAccount>,
    lamports: Map<Addr, u64>,
    listings: Map<Addr, crate::states::ListingAccount>,
    seller: u64,
    nft_mint: u64,
    nft_account: Addr,
    treasury: Addr,
    price: u64,
    expiry: u64,
    reserve: u64,
)
    requires
        tokens.contains_key(nft_account),
        tokens[nft_account].authority == (Addr::Key(seller)),
        !listings.contains_key(Addr::ListingRecord { nft_mint }),
        spec_lamports_of(lamports, Addr::Key(seller)) >= reserve,
    ensures
        ({
            let key = Addr::ListingRecord { nft_mint };
            let rec = crate::states::ListingAccount { owner: seller, nft_mint, price, expiry };
            // the state after `list`, per its contract on a fresh record
            let tokens1 = tokens.insert(
                nft_account,
                TokenAccount { authority: treasury, ..tokens[nft_account] },
            );
            let lamports1 = spec_lamport_debit(lamports, Addr::Key(seller), reserve);
            let listings1 = listings.insert(key, rec);
            // the state after `unlisting`, per its contract
            let tokens2 = tokens1.insert(
                nft_account,
                TokenAccount { authority: Addr::Key(seller), ..tokens1[nft_account] },
            );
            let lamports2 = spec_lamport_credit(lamports1, Addr::Key(seller), reserve);
            let listings2 = listings1.remove(key);
            &&& tokens2 == tokens
            &&& lamports2 == lamports
            &&& listings2 == listings
        }),
{
    let key = Addr::ListingRecord { nft_mint };
    let rec = crate::states::ListingAccount { owner: seller, nft_mint, price, expiry };
    let tokens1 = tokens.insert(
        nft_account,
        TokenAccount { authority: treasury, ..tokens[nft_account] },
    );
    let tokens2 = tokens1.insert(
        nft_account,
        TokenAccount { authority: Addr::Key(seller), ..tokens1[nft_account] },
    );
    assert(tokens2[nft_account] == tokens[nft_account]);
    assert(tokens2 =~= tokens);
    let lamports1 = spec_lamport_debit(lamports, Addr::Key(seller), reserve);
    let lamports2 = spec_lamport_credit(lamports1, Addr::Key(seller), reserve);
    if reserve > 0 {
        assert(lamports.contains_key(Addr::Key(seller)));
        assert(lamports2 =~= lamports);
    }
    assert(listings.insert(key, rec).remove(key) =~= listings);
}

/// Law: a settlement on a mismatched pair is rejected: when the listing and
/// the offer disagree on the price, no call of `execute_sale` can succeed.
pub proof fn lemma_price_mismatch_rejected(v: LedgerView, a: ExecuteSale, now: u64)
    requires
        v.listings.contains_key(crate::execute_sale::sale_listing_key(a)),
        v.offers.contains_key(crate::execute_sale::sale_offer_key(a)),
        v.offers[crate::execute_sale::sale_offer_key(a)].price
            != v.listings[crate::execute_sale::sale_listing_key(a)].price,
    ensures
        !spec_sale_ok(v, a, now),
{
}

} // verus!
