//! The ledger state the marketplace engine runs against, and the primitive
//! balance movements every operation is built from.
//!
//! The host ledger is modelled as keyed stores: native balances, token
//! accounts, marketplace configurations, listing and offer records, and the
//! read-only asset-metadata oracle. A record's lifecycle `Absent -> Active ->
//! Closed` is represented by map membership: a record is active exactly while
//! its address is in its store, and closing removes it, so a closed record
//! can later be re-created.

use vstd::prelude::*;

use crate::addr::{Addr, NATIVE_MINT};
use crate::errors::MarketplaceError;
use crate::states::{AssetMetadata, AuctionHouse, ListingAccount, OfferAccount, TokenAccount};
use crate::table::Table;

verus! {

/// The native balance of an address; absent accounts hold nothing.
pub open spec fn spec_lamports_of(m: Map<Addr, u64>, a: Addr) -> u64 {
    if m.contains_key(a) {
        m[a]
    } else {
        0
    }
}

/// The effect of crediting a native balance. A zero credit moves nothing and
/// creates no account.
pub open spec fn spec_lamport_credit(m: Map<Addr, u64>, a: Addr, amount: u64) -> Map<Addr, u64> {
    if amount == 0 {
        m
    } else {
        m.insert(a, (spec_lamports_of(m, a) + amount) as u64)
    }
}

/// Whether crediting a native balance stays within bounds.
pub open spec fn spec_lamport_credit_ok(m: Map<Addr, u64>, a: Addr, amount: u64) -> bool {
    spec_lamports_of(m, a) + amount <= u64::MAX
}

/// The effect of debiting a native balance. A zero debit moves nothing.
pub open spec fn spec_lamport_debit(m: Map<Addr, u64>, a: Addr, amount: u64) -> Map<Addr, u64> {
    if amount == 0 {
        m
    } else {
        m.insert(a, (spec_lamports_of(m, a) - amount) as u64)
    }
}

/// The effect of crediting a token account, creating it from `fresh` when it
/// does not exist yet. Creation happens even for a zero credit.
pub open spec fn spec_token_credit(
    m: Map<Addr, TokenAccount>,
    a: Addr,
    fresh: TokenAccount,
    amount: u64,
) -> Map<Addr, TokenAccount> {
    let acct = if m.contains_key(a) {
        m[a]
    } else {
        fresh
    };
    m.insert(a, TokenAccount { amount: (acct.amount + amount) as u64, ..acct })
}

/// Whether crediting a token account stays within bounds.
pub open spec fn spec_token_credit_ok(
    m: Map<Addr, TokenAccount>,
    a: Addr,
    fresh: TokenAccount,
    amount: u64,
) -> bool {
    (if m.contains_key(a) {
        m[a].amount
    } else {
        fresh.amount
    }) + amount <= u64::MAX
}

/// The effect of debiting an existing token account.
pub open spec fn spec_token_debit(m: Map<Addr, TokenAccount>, a: Addr, amount: u64) -> Map<
    Addr,
    TokenAccount,
> {
    m.insert(a, TokenAccount { amount: (m[a].amount - amount) as u64, ..m[a] })
}

/// A configuration record is keyed by its derivation and respects the fee
/// bounds.
pub open spec fn wf_config(a: Addr, c: AuctionHouse) -> bool {
    &&& a == (Addr::Marketplace { creator: c.creator, treasury_mint: c.treasury_mint })
    &&& c.auction_house_treasury == (Addr::Treasury {
        creator: c.creator,
        treasury_mint: c.treasury_mint,
    })
    &&& c.seller_fee_basis_points <= 10000
    &&& c.discount_basis_points <= c.seller_fee_basis_points
    &&& match c.treasury_withdrawal_destination {
        Addr::Key(owner) => c.treasury_mint == NATIVE_MINT,
        Addr::Ata { wallet, mint } => mint == c.treasury_mint && c.treasury_mint != NATIVE_MINT,
        _ => false,
    }
}

/// A listing record is keyed by its asset and carries a positive price.
pub open spec fn wf_listing(a: Addr, r: ListingAccount) -> bool {
    &&& a == (Addr::ListingRecord { nft_mint: r.nft_mint })
    &&& r.price >= 1
}

/// An offer record is keyed by its (asset, buyer) pair.
pub open spec fn wf_offer(a: Addr, r: OfferAccount) -> bool {
    a == (Addr::OfferRecord { nft_mint: r.nft_mint, buyer: r.buyer })
}

/// A token account at an associated address holds that address's mint.
pub open spec fn wf_token(a: Addr, t: TokenAccount) -> bool {
    match a {
        Addr::Ata { wallet, mint } => t.mint == mint,
        Addr::Escrow { creator, treasury_mint, depositor } => t.mint == treasury_mint,
        Addr::Treasury { creator, treasury_mint } => t.mint == treasury_mint,
        _ => true,
    }
}

/// A native balance entry at an escrow address of a native-rail marketplace
/// never lies below the minimum reserve.
pub open spec fn wf_escrow_reserve(a: Addr, balance: u64, min_reserve: u64) -> bool {
    match a {
        Addr::Escrow { creator, treasury_mint, depositor } => treasury_mint == NATIVE_MINT
            ==> balance >= min_reserve,
        _ => true,
    }
}

/// The result of applying a sequence of native credits in order, and whether
/// every step stayed within bounds.
pub open spec fn spec_lamport_fold(m: Map<Addr, u64>, items: Seq<(Addr, u64)>) -> (
    Map<Addr, u64>,
    bool,
)
    decreases items.len(),
{
    if items.len() == 0 {
        (m, true)
    } else {
        let prev = spec_lamport_fold(m, items.drop_last());
        let it = items.last();
        (
            spec_lamport_credit(prev.0, it.0, it.1),
            prev.1 && spec_lamport_credit_ok(prev.0, it.0, it.1),
        )
    }
}

/// The result of applying a sequence of token credits in order (each item:
/// target, template for creation when absent, amount), and whether every
/// step stayed within bounds.
pub open spec fn spec_token_fold(
    m: Map<Addr, TokenAccount>,
    items: Seq<(Addr, TokenAccount, u64)>,
) -> (Map<Addr, TokenAccount>, bool)
    decreases items.len(),
{
    if items.len() == 0 {
        (m, true)
    } else {
        let prev = spec_token_fold(m, items.drop_last());
        let it = items.last();
        (
            spec_token_credit(prev.0, it.0, it.1, it.2),
            prev.1 && spec_token_credit_ok(prev.0, it.0, it.1, it.2),
        )
    }
}

/// A credit chain that stays in bounds also stays in bounds on every prefix.
pub proof fn lemma_lamport_fold_ok_prefix(m: Map<Addr, u64>, items: Seq<(Addr, u64)>, i: int, j: int)
    requires
        0 <= i <= j <= items.len(),
        spec_lamport_fold(m, items.take(j)).1,
    ensures
        spec_lamport_fold(m, items.take(i)).1,
    decreases j - i,
{
    if i < j {
        assert(items.take(j).drop_last() =~= items.take(j - 1));
        lemma_lamport_fold_ok_prefix(m, items, i, j - 1);
    }
}

/// A token credit chain that stays in bounds also stays in bounds on every
/// prefix.
pub proof fn lemma_token_fold_ok_prefix(
    m: Map<Addr, TokenAccount>,
    items: Seq<(Addr, TokenAccount, u64)>,
    i: int,
    j: int,
)
    requires
        0 <= i <= j <= items.len(),
        spec_token_fold(m, items.take(j)).1,
    ensures
        spec_token_fold(m, items.take(i)).1,
    decreases j - i,
{
    if i < j {
        assert(items.take(j).drop_last() =~= items.take(j - 1));
        lemma_token_fold_ok_prefix(m, items, i, j - 1);
    }
}

/// Token credits never remove an account, never decrease a balance, and
/// never change an account's authority, mint or delegate.
pub proof fn lemma_token_fold_account(
    m: Map<Addr, TokenAccount>,
    items: Seq<(Addr, TokenAccount, u64)>,
    x: Addr,
)
    requires
        m.contains_key(x),
        spec_token_fold(m, items).1,
    ensures
        spec_token_fold(m, items).0.contains_key(x),
        spec_token_fold(m, items).0[x].amount >= m[x].amount,
        spec_token_fold(m, items).0[x].authority == m[x].authority,
        spec_token_fold(m, items).0[x].mint == m[x].mint,
        spec_token_fold(m, items).0[x].delegate == m[x].delegate,
    decreases items.len(),
{
    if items.len() > 0 {
        lemma_token_fold_account(m, items.drop_last(), x);
    }
}

/// The ledger: every account class the engine reads or writes.
pub struct Ledger {
    /// The lowest balance a native account must hold to stay live on the
    /// ledger; also the reserve deposited with each listing or offer record
    /// and returned to its owner when the record closes.
    pub min_reserve: u64,
    /// Native balances.
    pub lamports: Table<u64>,
    /// Token accounts.
    pub tokens: Table<TokenAccount>,
    /// Marketplace configurations.
    pub configs: Table<AuctionHouse>,
    /// Active listings.
    pub listings: Table<ListingAccount>,
    /// Active offers.
    pub offers: Table<OfferAccount>,
    /// The asset-metadata oracle, read-only to this engine.
    pub metadata: Table<AssetMetadata>,
}

/// Every record of every store satisfies its invariant.
pub open spec fn wf_stores(
    min_reserve: u64,
    lamports: Map<Addr, u64>,
    tokens: Map<Addr, TokenAccount>,
    configs: Map<Addr, AuctionHouse>,
    listings: Map<Addr, ListingAccount>,
    offers: Map<Addr, OfferAccount>,
) -> bool {
    &&& forall|a: Addr| #[trigger] configs.contains_key(a) ==> wf_config(a, configs[a])
    &&& forall|a: Addr| #[trigger] listings.contains_key(a) ==> wf_listing(a, listings[a])
    &&& forall|a: Addr| #[trigger] offers.contains_key(a) ==> wf_offer(a, offers[a])
    &&& forall|a: Addr| #[trigger] tokens.contains_key(a) ==> wf_token(a, tokens[a])
    &&& forall|a: Addr| #[trigger] lamports.contains_key(a) ==> wf_escrow_reserve(
        a,
        lamports[a],
        min_reserve,
    )
}

impl Ledger {
    /// Every store is well-keyed and every record satisfies its invariant.
    pub open spec fn wf(&self) -> bool {
        &&& self.lamports.wf()
        &&& self.tokens.wf()
        &&& self.configs.wf()
        &&& self.listings.wf()
        &&& self.offers.wf()
        &&& self.metadata.wf()
        &&& wf_stores(
            self.min_reserve,
            self.lamports@,
            self.tokens@,
            self.configs@,
            self.listings@,
            self.offers@,
        )
    }

    /// An empty ledger with the given minimum reserve.
    pub fn new(min_reserve: u64) -> (l: Ledger)
        ensures
            l.wf(),
            l.min_reserve == min_reserve,
            l.lamports@ == Map::<Addr, u64>::empty(),
            l.tokens@ == Map::<Addr, TokenAccount>::empty(),
            l.configs@ == Map::<Addr, AuctionHouse>::empty(),
            l.listings@ == Map::<Addr, ListingAccount>::empty(),
            l.offers@ == Map::<Addr, OfferAccount>::empty(),
            l.metadata@ == Map::<Addr, AssetMetadata>::empty(),
    {
        Ledger {
            min_reserve,
            lamports: Table::new(),
            tokens: Table::new(),
            configs: Table::new(),
            listings: Table::new(),
            offers: Table::new(),
            metadata: Table::new(),
        }
    }

    /// Installs or replaces an asset-metadata oracle record. Models the
    /// external metadata program writing at its canonical derived address.
    pub fn set_metadata(&mut self, nft_mint: u64, md: AssetMetadata)
        requires
            old(self).wf(),
        ensures
            final(self).wf(),
            final(self).metadata@ == old(self).metadata@.insert(
                Addr::MetadataRecord { nft_mint },
                md,
            ),
            final(self).min_reserve == old(self).min_reserve,
            final(self).lamports == old(self).lamports,
            final(self).tokens == old(self).tokens,
            final(self).configs == old(self).configs,
            final(self).listings == old(self).listings,
            final(self).offers == old(self).offers,
    {
        self.metadata.put(Addr::MetadataRecord { nft_mint }, md);
    }

    /// Credits a wallet's native balance. Models the host funding an
    /// externally owned account.
    pub fn fund_wallet(&mut self, wallet: u64, amount: u64) -> (r: Result<(), MarketplaceError>)
        requires
            old(self).wf(),
        ensures
            final(self).wf(),
            final(self).min_reserve == old(self).min_reserve,
            final(self).tokens == old(self).tokens,
            final(self).configs == old(self).configs,
            final(self).listings == old(self).listings,
            final(self).offers == old(self).offers,
            final(self).metadata == old(self).metadata,
            match r {
                Ok(()) => spec_lamport_credit_ok(old(self).lamports@, Addr::Key(wallet), amount)
                    && final(self).lamports@ == spec_lamport_credit(
                    old(self).lamports@,
                    Addr::Key(wallet),
                    amount,
                ),
                Err(e) => e == MarketplaceError::NumericalOverflow && !spec_lamport_credit_ok(
                    old(self).lamports@,
                    Addr::Key(wallet),
                    amount,
                ) && final(self).lamports == old(self).lamports,
            },
    {
        credit_lamports(&mut self.lamports, Addr::Key(wallet), amount)
    }

    /// Mints units of a mint into a wallet's associated token account,
    /// creating the account when absent. Models the external mint authority.
    pub fn mint_to(&mut self, wallet: u64, mint: u64, amount: u64) -> (r: Result<
        (),
        MarketplaceError,
    >)
        requires
            old(self).wf(),
        ensures
            final(self).wf(),
            final(self).min_reserve == old(self).min_reserve,
            final(self).lamports == old(self).lamports,
            final(self).configs == old(self).configs,
            final(self).listings == old(self).listings,
            final(self).offers == old(self).offers,
            final(self).metadata == old(self).metadata,
            match r {
                Ok(()) => spec_token_credit_ok(
                    old(self).tokens@,
                    Addr::Ata { wallet, mint },
                    TokenAccount::spec_fresh_ata(wallet, mint),
                    amount,
                ) && final(self).tokens@ == spec_token_credit(
                    old(self).tokens@,
                    Addr::Ata { wallet, mint },
                    TokenAccount::spec_fresh_ata(wallet, mint),
                    amount,
                ),
                Err(e) => e == MarketplaceError::NumericalOverflow && !spec_token_credit_ok(
                    old(self).tokens@,
                    Addr::Ata { wallet, mint },
                    TokenAccount::spec_fresh_ata(wallet, mint),
                    amount,
                ) && final(self).tokens == old(self).tokens,
            },
    {
        let a = Addr::ata_of(wallet, mint);
        let fresh = TokenAccount::fresh_ata(wallet, mint);
        credit_token(&mut self.tokens, a, fresh, amount)
    }
}

/// The amount that actually needs to be transferred into a native account
/// so that adding `amount` also lifts the balance to the rent minimum: the
/// shortfall below the minimum when the sum falls short of it, otherwise
/// `amount` itself.
pub fn rent_checked_add(balance: u64, amount: u64, rent_minimum: u64) -> (r: Result<
    u64,
    MarketplaceError,
>)
    ensures
        match r {
            Ok(x) => balance + amount <= u64::MAX && x == (if balance + amount < rent_minimum {
                rent_minimum - balance - amount
            } else {
                amount as int
            }),
            Err(e) => e == MarketplaceError::NumericalOverflow && balance + amount > u64::MAX,
        },
{
    if balance > u64::MAX - amount {
        return Err(MarketplaceError::NumericalOverflow);
    }
    let after = balance + amount;
    if after < rent_minimum {
        Ok(rent_minimum - after)
    } else {
        Ok(amount)
    }
}

/// The amount that can actually be debited from a native account without
/// taking it below the rent minimum: `amount` itself when the remainder
/// stays at or above the minimum, otherwise only the balance above the
/// minimum.
pub fn rent_checked_sub(balance: u64, amount: u64, rent_minimum: u64) -> (r: Result<
    u64,
    MarketplaceError,
>)
    requires
        balance >= rent_minimum || balance < amount,
    ensures
        match r {
            Ok(x) => balance >= amount && x == (if balance - amount < rent_minimum {
                balance - rent_minimum
            } else {
                amount as int
            }),
            Err(e) => e == MarketplaceError::NumericalOverflow && balance < amount,
        },
{
    if balance < amount {
        return Err(MarketplaceError::NumericalOverflow);
    }
    let after = balance - amount;
    if after < rent_minimum {
        Ok(balance - rent_minimum)
    } else {
        Ok(amount)
    }
}

/// Reads a native balance; absent accounts hold nothing.
pub fn lamport_balance(t: &Table<u64>, a: Addr) -> (r: u64)
    requires
        t.wf(),
    ensures
        r == spec_lamports_of(t@, a),
{
    match t.get(a) {
        Some(v) => *v,
        None => 0,
    }
}

/// Credits a native balance, failing on overflow with no effect.
pub fn credit_lamports(t: &mut Table<u64>, a: Addr, amount: u64) -> (r: Result<
    (),
    MarketplaceError,
>)
    requires
        old(t).wf(),
    ensures
        final(t).wf(),
        match r {
            Ok(()) => spec_lamport_credit_ok(old(t)@, a, amount) && final(t)@
                == spec_lamport_credit(old(t)@, a, amount),
            Err(e) => e == MarketplaceError::NumericalOverflow && !spec_lamport_credit_ok(
                old(t)@,
                a,
                amount,
            ) && *final(t) == *old(t),
        },
{
    if amount == 0 {
        return Ok(());
    }
    let bal = lamport_balance(t, a);
    if bal > u64::MAX - amount {
        return Err(MarketplaceError::NumericalOverflow);
    }
    t.put(a, bal + amount);
    Ok(())
}

/// Debits a native balance, failing with no effect unless the balance covers
/// the amount and stays at or above `floor` afterwards.
pub fn debit_lamports(t: &mut Table<u64>, a: Addr, amount: u64, floor: u64) -> (r: Result<
    (),
    MarketplaceError,
>)
    requires
        old(t).wf(),
    ensures
        final(t).wf(),
        match r {
            Ok(()) => spec_lamports_of(old(t)@, a) >= amount + floor && final(t)@
                == spec_lamport_debit(old(t)@, a, amount),
            Err(e) => e == MarketplaceError::NumericalOverflow && spec_lamports_of(old(t)@, a)
                < amount + floor && *final(t) == *old(t),
        },
{
    let bal = lamport_balance(t, a);
    if bal < amount || bal - amount < floor {
        return Err(MarketplaceError::NumericalOverflow);
    }
    if amount == 0 {
        return Ok(());
    }
    t.put(a, bal - amount);
    Ok(())
}

/// Credits a token account, creating it from `fresh` when absent; fails on
/// overflow with no effect. Creation happens even for a zero credit.
pub fn credit_token(t: &mut Table<TokenAccount>, a: Addr, fresh: TokenAccount, amount: u64) -> (r:
    Result<(), MarketplaceError>)
    requires
        old(t).wf(),
    ensures
        final(t).wf(),
        match r {
            Ok(()) => spec_token_credit_ok(old(t)@, a, fresh, amount) && final(t)@
                == spec_token_credit(old(t)@, a, fresh, amount),
            Err(e) => e == MarketplaceError::NumericalOverflow && !spec_token_credit_ok(
                old(t)@,
                a,
                fresh,
                amount,
            ) && *final(t) == *old(t),
        },
{
    let acct: TokenAccount = match t.get(a) {
        Some(x) => *x,
        None => fresh,
    };
    if acct.amount > u64::MAX - amount {
        return Err(MarketplaceError::NumericalOverflow);
    }
    t.put(a, TokenAccount { amount: acct.amount + amount, ..acct });
    Ok(())
}

/// Debits an existing token account, failing with no effect when the account
/// is absent or its balance is short.
pub fn debit_token(t: &mut Table<TokenAccount>, a: Addr, amount: u64) -> (r: Result<
    (),
    MarketplaceError,
>)
    requires
        old(t).wf(),
    ensures
        final(t).wf(),
        match r {
            Ok(()) => old(t)@.contains_key(a) && old(t)@[a].amount >= amount && final(t)@
                == spec_token_debit(old(t)@, a, amount),
            Err(e) => *final(t) == *old(t) && (if !old(t)@.contains_key(a) {
                e == MarketplaceError::InvalidAccountInput
            } else {
                e == MarketplaceError::NumericalOverflow && old(t)@[a].amount < amount
            }),
        },
{
    let acct: TokenAccount = match t.get(a) {
        Some(x) => *x,
        None => {
            return Err(MarketplaceError::InvalidAccountInput);
        },
    };
    if acct.amount < amount {
        return Err(MarketplaceError::NumericalOverflow);
    }
    t.put(a, TokenAccount { amount: acct.amount - amount, ..acct });
    Ok(())
}

} // verus!
