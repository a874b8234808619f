//! Content-addressed account keys.
//!
//! Every account the engine touches lives at a deterministic address. An
//! address is either a plain key (a user wallet, a mint, an authority) or a
//! derived, protocol-owned address computed from the seeds that identify the
//! account's role. Derived addresses are represented directly by their seed
//! tuple, which makes the derivation injective by construction.

use vstd::prelude::*;

verus! {

/// The sentinel mint id that selects the native currency rail.
pub const NATIVE_MINT: u64 = 0;

/// An account address on the ledger.
#[derive(Clone, Copy, PartialEq, Eq, Structural, Debug, Hash)]
pub enum Addr {
    /// An externally owned account: a wallet, a mint, or an authority key.
    Key(u64),
    /// The marketplace configuration account, derived from its creator and
    /// the mint of the currency it trades in.
    Marketplace { creator: u64, treasury_mint: u64 },
    /// The marketplace treasury, which collects protocol fees and, for the
    /// token rail, also serves as the vault authority holding listed assets.
    Treasury { creator: u64, treasury_mint: u64 },
    /// A buyer's escrow holding account, derived per (marketplace, depositor).
    Escrow { creator: u64, treasury_mint: u64, depositor: u64 },
    /// The listing record for an asset, derived from the asset's mint.
    ListingRecord { nft_mint: u64 },
    /// The offer record for an (asset, buyer) pair.
    OfferRecord { nft_mint: u64, buyer: u64 },
    /// The asset-metadata oracle record for a mint.
    MetadataRecord { nft_mint: u64 },
    /// The associated token account of a wallet for a mint.
    Ata { wallet: u64, mint: u64 },
}

impl Addr {
    /// The marketplace address a configuration account lives at.
    pub fn marketplace(creator: u64, treasury_mint: u64) -> (a: Addr)
        ensures
            a == (Addr::Marketplace { creator, treasury_mint }),
    {
        Addr::Marketplace { creator, treasury_mint }
    }

    /// The treasury address belonging to a marketplace address.
    pub fn treasury_of(creator: u64, treasury_mint: u64) -> (a: Addr)
        ensures
            a == (Addr::Treasury { creator, treasury_mint }),
    {
        Addr::Treasury { creator, treasury_mint }
    }

    /// The escrow address for a depositor under a marketplace.
    pub fn escrow_of(creator: u64, treasury_mint: u64, depositor: u64) -> (a: Addr)
        ensures
            a == (Addr::Escrow { creator, treasury_mint, depositor }),
    {
        Addr::Escrow { creator, treasury_mint, depositor }
    }

    /// The associated token account address of a wallet for a mint.
    pub fn ata_of(wallet: u64, mint: u64) -> (a: Addr)
        ensures
            a == (Addr::Ata { wallet, mint }),
    {
        Addr::Ata { wallet, mint }
    }
}

} // verus!
