//! A verified ticket-sale and NFT-minting ledger.
//!
//! The library models a hierarchy of sellable inventory (events, ticket
//! types, time-boxed sale stages), enforces per-user and per-tier purchase
//! limits, reconciles payments against configured prices, gates purchases
//! behind optional identity checks, mints unique token instances and splits
//! proceeds between a platform fee and the organizer's accrued balance.
//!
//! Host-side collaborators (token issuance, the swap service, signature
//! verification, the clock and the caller's identity) are supplied by the
//! caller as plain values; every decision taken on them is verified here.

pub mod bytes;
pub mod common;
pub mod errors;
pub mod events;
pub mod laws;
pub mod manage;
pub mod settings;
pub mod storage;
pub mod structs;
pub mod ticketing;
pub mod views;

pub use common::MintBatch;
pub use common::PaymentOutcome;
pub use errors::Tier;
pub use errors::TicketingError;
pub use events::DomainEvent;
pub use manage::IssueRequest;
pub use settings::TradingDecision;
pub use structs::Attributes;
pub use structs::Event;
pub use structs::EventArgs;
pub use structs::Payment;
pub use structs::TicketStage;
pub use structs::TicketStageArgs;
pub use structs::TicketType;
pub use structs::TicketTypeArgs;
pub use ticketing::BuyOutcome;
pub use ticketing::NFT_ISSUE_COST;
pub use ticketing::ROYALTIES_MAX;
pub use ticketing::Ticketing;
