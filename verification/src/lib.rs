//! A ledger-resident marketplace settlement engine for unique assets.
//!
//! Sellers list assets, buyers deposit funds into escrow and place offers,
//! and a matched listing/offer pair is settled atomically: creator royalties,
//! a discountable protocol fee and the seller's net proceeds are paid out of
//! the buyer's escrow, and custody of the asset moves from the protocol vault
//! to the buyer.
//!
//! The host ledger is modelled explicitly: accounts live at content-addressed
//! keys ([`addr::Addr`]) in keyed stores ([`table::Table`]), and every
//! operation is a verified transition on that state.

pub mod addr;
pub mod auction_house;
pub mod deposit;
pub mod errors;
pub mod execute_sale;
pub mod fees;
pub mod laws;
pub mod ledger;
pub mod listing;
pub mod states;
pub mod table;
