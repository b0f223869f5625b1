//! The records of the ledger and their mathematical views.
//!
//! Identifiers, addresses and token tickers are byte strings; amounts are
//! unsigned integers (`u128` for token amounts, basis points in `u64` for
//! fee and royalty rates).  Each executable record has a ghost view struct
//! over `Seq<u8>` that the contracts speak of.

use vstd::prelude::*;

use crate::bytes::clone_bytes;

verus! {

/// A token amount: token identifier, nonce and amount.
///
/// With nonce `0` this is a fungible payment; a positive nonce denotes one
/// unit of a non-fungible token.
pub struct Payment {
    pub token: Vec<u8>,
    pub nonce: u64,
    pub amount: u128,
}

/// The view of a `Payment`.
pub ghost struct PaymentV {
    pub token: Seq<u8>,
    pub nonce: u64,
    pub amount: u128,
}

impl View for Payment {
    type V = PaymentV;

    open spec fn view(&self) -> PaymentV {
        PaymentV { token: self.token@, nonce: self.nonce, amount: self.amount }
    }
}

impl DeepView for Payment {
    type V = PaymentV;

    open spec fn deep_view(&self) -> PaymentV {
        self.view()
    }
}

/// A fresh copy of a payment.
pub fn clone_payment(p: &Payment) -> (r: Payment)
    ensures
        r@ == p@,
{
    Payment { token: clone_bytes(&p.token), nonce: p.nonce, amount: p.amount }
}

/// A fresh copy of a price list.
pub fn clone_payments(v: &Vec<Payment>) -> (r: Vec<Payment>)
    ensures
        r.deep_view() == v.deep_view(),
{
    let mut r: Vec<Payment> = Vec::new();
    for i in 0..v.len()
        invariant
            r@.len() == i,
            forall|j: int| 0 <= j < i ==> r@[j]@ == v@[j]@,
    {
        r.push(clone_payment(&v[i]));
    }
    proof {
        assert forall|j: int| 0 <= j < v@.len() implies r.deep_view()[j] == v.deep_view()[j] by {
            assert(r.deep_view()[j] == r@[j].deep_view());
            assert(v.deep_view()[j] == v@[j].deep_view());
        }
        assert(r.deep_view() =~= v.deep_view());
    }
    r
}

/// A top-level sellable campaign owning one token collection.
pub struct Event {
    pub token: Vec<u8>,
    pub transfer_role: bool,
    pub id: Vec<u8>,
    pub max_capacity: u32,
    pub max_per_user: u32,
    pub fees: u64,
    pub mint_count: u32,
    pub has_kyc: bool,
    pub refund_policy: bool,
    pub append_number: bool,
    pub bot_protection: bool,
}

/// The view of an `Event`.
pub ghost struct EventV {
    pub token: Seq<u8>,
    pub transfer_role: bool,
    pub id: Seq<u8>,
    pub max_capacity: u32,
    pub max_per_user: u32,
    pub fees: u64,
    pub mint_count: u32,
    pub has_kyc: bool,
    pub refund_policy: bool,
    pub append_number: bool,
    pub bot_protection: bool,
}

impl View for Event {
    type V = EventV;

    open spec fn view(&self) -> EventV {
        EventV {
            token: self.token@,
            transfer_role: self.transfer_role,
            id: self.id@,
            max_capacity: self.max_capacity,
            max_per_user: self.max_per_user,
            fees: self.fees,
            mint_count: self.mint_count,
            has_kyc: self.has_kyc,
            refund_policy: self.refund_policy,
            append_number: self.append_number,
            bot_protection: self.bot_protection,
        }
    }
}

impl DeepView for Event {
    type V = EventV;

    open spec fn deep_view(&self) -> EventV {
        self.view()
    }
}

/// A fresh copy of an event record.
pub fn clone_event(e: &Event) -> (r: Event)
    ensures
        r@ == e@,
{
    Event {
        token: clone_bytes(&e.token),
        transfer_role: e.transfer_role,
        id: clone_bytes(&e.id),
        max_capacity: e.max_capacity,
        max_per_user: e.max_per_user,
        fees: e.fees,
        mint_count: e.mint_count,
        has_kyc: e.has_kyc,
        refund_policy: e.refund_policy,
        append_number: e.append_number,
        bot_protection: e.bot_protection,
    }
}

/// The caller-supplied arguments of an event.
pub struct EventArgs {
    pub max_capacity: u32,
    pub max_per_user: u32,
    pub has_kyc: bool,
    pub refund_policy: bool,
    pub append_number: bool,
    pub bot_protection: bool,
}

impl View for EventArgs {
    type V = EventArgs;

    open spec fn view(&self) -> EventArgs {
        *self
    }
}

/// The event record created from `args` when issuance confirms `token`.
pub open spec fn spec_event_record(id: Seq<u8>, token: Seq<u8>, fees: u64, args: EventArgs) -> EventV {
    EventV {
        token: token,
        transfer_role: false,
        id: id,
        max_capacity: args.max_capacity,
        max_per_user: args.max_per_user,
        fees: fees,
        mint_count: 0,
        has_kyc: args.has_kyc,
        refund_policy: args.refund_policy,
        append_number: args.append_number,
        bot_protection: args.bot_protection,
    }
}

/// The event record after an admin edit.
pub open spec fn spec_event_edited(e: EventV, args: EventArgs) -> EventV {
    EventV {
        max_capacity: args.max_capacity,
        max_per_user: args.max_per_user,
        has_kyc: args.has_kyc,
        refund_policy: args.refund_policy,
        append_number: args.append_number,
        bot_protection: args.bot_protection,
        ..e
    }
}

/// The attributes carried by a minted ticket.
pub struct Attributes {
    pub is_check_in: bool,
    pub event_id: Vec<u8>,
}

/// The view of an `Attributes`.
pub ghost struct AttributesV {
    pub is_check_in: bool,
    pub event_id: Seq<u8>,
}

impl View for Attributes {
    type V = AttributesV;

    open spec fn view(&self) -> AttributesV {
        AttributesV { is_check_in: self.is_check_in, event_id: self.event_id@ }
    }
}

/// A named tier of tickets within an event.
pub struct TicketType {
    pub base_name: Vec<u8>,
    pub image: Vec<u8>,
    pub royalties: u64,
    pub id: Vec<u8>,
    pub max_per_user: u32,
    pub mint_limit: u32,
    pub mint_count: u32,
}

/// The view of a `TicketType`.
pub ghost struct TicketTypeV {
    pub base_name: Seq<u8>,
    pub image: Seq<u8>,
    pub royalties: u64,
    pub id: Seq<u8>,
    pub max_per_user: u32,
    pub mint_limit: u32,
    pub mint_count: u32,
}

impl View for TicketType {
    type V = TicketTypeV;

    open spec fn view(&self) -> TicketTypeV {
        TicketTypeV {
            base_name: self.base_name@,
            image: self.image@,
            royalties: self.royalties,
            id: self.id@,
            max_per_user: self.max_per_user,
            mint_limit: self.mint_limit,
            mint_count: self.mint_count,
        }
    }
}

impl DeepView for TicketType {
    type V = TicketTypeV;

    open spec fn deep_view(&self) -> TicketTypeV {
        self.view()
    }
}

/// A fresh copy of a ticket type record.
pub fn clone_ticket_type(t: &TicketType) -> (r: TicketType)
    ensures
        r@ == t@,
{
    TicketType {
        base_name: clone_bytes(&t.base_name),
        image: clone_bytes(&t.image),
        royalties: t.royalties,
        id: clone_bytes(&t.id),
        max_per_user: t.max_per_user,
        mint_limit: t.mint_limit,
        mint_count: t.mint_count,
    }
}

/// The caller-supplied arguments of a ticket type.
pub struct TicketTypeArgs {
    pub base_name: Vec<u8>,
    pub image: Vec<u8>,
    pub royalties: u64,
    pub id: Vec<u8>,
    pub max_per_user: u32,
    pub mint_limit: u32,
}

/// The view of a `TicketTypeArgs`.
pub ghost struct TicketTypeArgsV {
    pub base_name: Seq<u8>,
    pub image: Seq<u8>,
    pub royalties: u64,
    pub id: Seq<u8>,
    pub max_per_user: u32,
    pub mint_limit: u32,
}

impl View for TicketTypeArgs {
    type V = TicketTypeArgsV;

    open spec fn view(&self) -> TicketTypeArgsV {
        TicketTypeArgsV {
            base_name: self.base_name@,
            image: self.image@,
            royalties: self.royalties,
            id: self.id@,
            max_per_user: self.max_per_user,
            mint_limit: self.mint_limit,
        }
    }
}

/// The ticket type record created from `args`.
pub open spec fn spec_type_record(args: TicketTypeArgsV) -> TicketTypeV {
    TicketTypeV {
        base_name: args.base_name,
        image: args.image,
        royalties: args.royalties,
        id: args.id,
        max_per_user: args.max_per_user,
        mint_limit: args.mint_limit,
        mint_count: 0,
    }
}

/// The ticket type record after an admin edit: metadata and limits are
/// replaced, identity and the running mint count are kept.
pub open spec fn spec_type_edited(t: TicketTypeV, args: TicketTypeArgsV) -> TicketTypeV {
    TicketTypeV {
        base_name: args.base_name,
        image: args.image,
        royalties: args.royalties,
        mint_limit: args.mint_limit,
        max_per_user: args.max_per_user,
        ..t
    }
}

/// A time-boxed pricing and availability window for a ticket type.
pub struct TicketStage {
    pub prices: Vec<Payment>,
    pub id: Vec<u8>,
    pub ticket_type_id: Vec<u8>,
    pub has_whitelist: bool,
    pub max_per_user: u32,
    pub mint_limit: u32,
    pub mint_count: u32,
    pub start_time: u64,
    pub end_time: u64,
    pub active: bool,
}

/// The view of a `TicketStage`.
pub ghost struct TicketStageV {
    pub prices: Seq<PaymentV>,
    pub id: Seq<u8>,
    pub ticket_type_id: Seq<u8>,
    pub has_whitelist: bool,
    pub max_per_user: u32,
    pub mint_limit: u32,
    pub mint_count: u32,
    pub start_time: u64,
    pub end_time: u64,
    pub active: bool,
}

impl View for TicketStage {
    type V = TicketStageV;

    open spec fn view(&self) -> TicketStageV {
        TicketStageV {
            prices: self.prices.deep_view(),
            id: self.id@,
            ticket_type_id: self.ticket_type_id@,
            has_whitelist: self.has_whitelist,
            max_per_user: self.max_per_user,
            mint_limit: self.mint_limit,
            mint_count: self.mint_count,
            start_time: self.start_time,
            end_time: self.end_time,
            active: self.active,
        }
    }
}

impl DeepView for TicketStage {
    type V = TicketStageV;

    open spec fn deep_view(&self) -> TicketStageV {
        self.view()
    }
}

/// A fresh copy of a ticket stage record.
pub fn clone_ticket_stage(s: &TicketStage) -> (r: TicketStage)
    ensures
        r@ == s@,
{
    TicketStage {
        prices: clone_payments(&s.prices),
        id: clone_bytes(&s.id),
        ticket_type_id: clone_bytes(&s.ticket_type_id),
        has_whitelist: s.has_whitelist,
        max_per_user: s.max_per_user,
        mint_limit: s.mint_limit,
        mint_count: s.mint_count,
        start_time: s.start_time,
        end_time: s.end_time,
        active: s.active,
    }
}

/// The caller-supplied arguments of a ticket stage.
pub struct TicketStageArgs {
    pub prices: Vec<Payment>,
    pub id: Vec<u8>,
    pub has_whitelist: bool,
    pub max_per_user: u32,
    pub mint_limit: u32,
    pub start_time: u64,
    pub end_time: u64,
    pub active: bool,
}

/// The view of a `TicketStageArgs`.
pub ghost struct TicketStageArgsV {
    pub prices: Seq<PaymentV>,
    pub id: Seq<u8>,
    pub has_whitelist: bool,
    pub max_per_user: u32,
    pub mint_limit: u32,
    pub start_time: u64,
    pub end_time: u64,
    pub active: bool,
}

impl View for TicketStageArgs {
    type V = TicketStageArgsV;

    open spec fn view(&self) -> TicketStageArgsV {
        TicketStageArgsV {
            prices: self.prices.deep_view(),
            id: self.id@,
            has_whitelist: self.has_whitelist,
            max_per_user: self.max_per_user,
            mint_limit: self.mint_limit,
            start_time: self.start_time,
            end_time: self.end_time,
            active: self.active,
        }
    }
}

/// The ticket stage record created from `args` under `ticket_type_id`.
pub open spec fn spec_stage_record(args: TicketStageArgsV, ticket_type_id: Seq<u8>) -> TicketStageV {
    TicketStageV {
        prices: args.prices,
        id: args.id,
        ticket_type_id: ticket_type_id,
        has_whitelist: args.has_whitelist,
        max_per_user: args.max_per_user,
        mint_limit: args.mint_limit,
        mint_count: 0,
        start_time: args.start_time,
        end_time: args.end_time,
        active: args.active,
    }
}

/// The ticket stage record after an admin edit: everything caller-supplied is
/// replaced, identity and the running mint count are kept.
pub open spec fn spec_stage_edited(s: TicketStageV, args: TicketStageArgsV) -> TicketStageV {
    TicketStageV {
        prices: args.prices,
        has_whitelist: args.has_whitelist,
        max_per_user: args.max_per_user,
        mint_limit: args.mint_limit,
        start_time: args.start_time,
        end_time: args.end_time,
        active: args.active,
        ..s
    }
}

} // verus!
