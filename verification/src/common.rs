//! The sale-validation pipeline and its shared checks.
//!
//! A purchase runs through an ordered sequence of existence, state, time,
//! whitelist, per-user-limit and capacity checks; the first failing check
//! aborts the operation with its error and no state change.  The order of
//! the checks — and so which error is reported when several would fail — is
//! part of the contract: limits and capacities are checked stage, then
//! type, then event.

use vstd::prelude::*;

use crate::bytes::append_bytes;
use crate::bytes::bytes_eq;
use crate::bytes::clone_bytes;
use crate::bytes::dec_bytes;
use crate::bytes::spec_dec;
use crate::errors::Tier;
use crate::structs::Payment;
use crate::structs::PaymentV;
use crate::structs::clone_payment;
use crate::ticketing::ROYALTIES_MAX;
use crate::errors::TicketingError;
use crate::storage::k1;
use crate::storage::k2;
use crate::storage::k3;
use crate::storage::k4;
use crate::structs::Event;
use crate::structs::EventV;
use crate::structs::TicketStage;
use crate::structs::TicketStageV;
use crate::structs::TicketType;
use crate::structs::TicketTypeV;
use crate::structs::clone_event;
use crate::structs::clone_ticket_stage;
use crate::structs::clone_ticket_type;
use crate::events::DomainEventV;
use crate::storage::has_key;
use crate::storage::kv_upsert;
use crate::storage::lemma_key_index_props;
use crate::storage::lemma_upsert;
use crate::storage::val_of;
use crate::ticketing::NFT_AMOUNT;
use crate::ticketing::StateV;
use crate::ticketing::Ticketing;

verus! {

/// Whether `addr` denotes a smart-contract account: a 32-byte address whose
/// first 8 bytes are zero, as the host chain lays out contract addresses.
pub open spec fn spec_is_sc(addr: Seq<u8>) -> bool {
    &&& addr.len() == 32
    &&& forall|i: int| 0 <= i < 8 ==> addr[i] == 0
}

/// Whether `addr` denotes a smart-contract account.
pub fn is_smart_contract(addr: &Vec<u8>) -> (r: bool)
    ensures
        r == spec_is_sc(addr@),
{
    if addr.len() != 32 {
        return false;
    }
    for i in 0..8usize
        invariant
            addr@.len() == 32,
            forall|j: int| 0 <= j < i ==> addr@[j] == 0,
    {
        if addr[i] != 0 {
            return false;
        }
    }
    true
}

/// Whether `now` falls in the stage's sale window (`end_time == 0` means
/// unbounded).
pub open spec fn spec_time_ok(stage: TicketStageV, now: u64) -> bool {
    &&& stage.start_time <= now
    &&& stage.end_time == 0 || now <= stage.end_time
}

/// The per-user limit checks, evaluated stage, then type, then event; a cap
/// of 0 means unlimited.
pub open spec fn spec_limit_check(
    s: StateV,
    caller: Seq<u8>,
    q: u32,
    e: EventV,
    t: TicketTypeV,
    st: TicketStageV,
) -> Result<(), TicketingError> {
    if st.max_per_user > 0 && s.buys_stage(caller, e.id, t.id, st.id) + q > st.max_per_user {
        Err(TicketingError::LimitExceeded(Tier::Stage))
    } else if t.max_per_user > 0 && s.buys_type(caller, e.id, t.id) + q > t.max_per_user {
        Err(TicketingError::LimitExceeded(Tier::Type))
    } else if e.max_per_user > 0 && s.buys_event(caller, e.id) + q > e.max_per_user {
        Err(TicketingError::LimitExceeded(Tier::Event))
    } else {
        Ok(())
    }
}

/// The capacity checks of a stage purchase, evaluated stage, then type,
/// then event.
pub open spec fn spec_sold_out_check(e: EventV, t: TicketTypeV, st: TicketStageV, q: u32) -> Result<
    (),
    TicketingError,
> {
    if st.mint_count + q > st.mint_limit {
        Err(TicketingError::SoldOut(Tier::Stage))
    } else if t.mint_count + q > t.mint_limit {
        Err(TicketingError::SoldOut(Tier::Type))
    } else if e.mint_count + q > e.max_capacity {
        Err(TicketingError::SoldOut(Tier::Event))
    } else {
        Ok(())
    }
}

/// The capacity checks of a stage-less (giveaway) mint: type, then event.
pub open spec fn spec_type_sold_out_check(e: EventV, t: TicketTypeV, q: u32) -> Result<
    (),
    TicketingError,
> {
    if t.mint_count + q > t.mint_limit {
        Err(TicketingError::SoldOut(Tier::Type))
    } else if e.mint_count + q > e.max_capacity {
        Err(TicketingError::SoldOut(Tier::Event))
    } else {
        Ok(())
    }
}

/// The full ordered validation pipeline of a purchase.
pub open spec fn spec_buy_check(
    s: StateV,
    e_id: Seq<u8>,
    t_id: Seq<u8>,
    s_id: Seq<u8>,
    q: u32,
    caller: Seq<u8>,
    now: u64,
) -> Result<(), TicketingError> {
    if !s.has_event(e_id) {
        Err(TicketingError::EventNotFound)
    } else if !s.has_type(e_id, t_id) {
        Err(TicketingError::TypeNotFound)
    } else if !s.has_stage(e_id, t_id, s_id) {
        Err(TicketingError::StageNotFound)
    } else {
        let e = s.event_of(e_id);
        let t = s.type_of(e_id, t_id);
        let st = s.stage_of(e_id, t_id, s_id);
        if !st.active {
            Err(TicketingError::StageInactive)
        } else if now < st.start_time {
            Err(TicketingError::NotStarted)
        } else if st.end_time != 0 && now > st.end_time {
            Err(TicketingError::Ended)
        } else if st.has_whitelist && !s.whitelisted(e_id, t_id, s_id, caller) {
            Err(TicketingError::NotWhitelisted)
        } else if q == 0 {
            Err(TicketingError::InvalidQuantity)
        } else {
            match spec_limit_check(s, caller, q, e, t, st) {
                Err(er) => Err(er),
                Ok(()) => spec_sold_out_check(e, t, st, q),
            }
        }
    }
}

/// The tag closing a KYC attestation payload: the ASCII bytes of
/// `has_kyc`.
pub open spec fn spec_kyc_tag() -> Seq<u8> {
    seq![104u8, 97u8, 115u8, 95u8, 107u8, 121u8, 99u8]
}

/// The tag closing an anti-bot attestation payload: the ASCII bytes of
/// `bot_protection`.
pub open spec fn spec_bot_tag() -> Seq<u8> {
    seq![98u8, 111u8, 116u8, 95u8, 112u8, 114u8, 111u8, 116u8, 101u8, 99u8, 116u8, 105u8, 111u8, 110u8]
}

/// The deterministic attestation payload: caller address, event id, type
/// id, stage id, the quantity in decimal, and the mode tag, concatenated.
pub open spec fn spec_payload(
    caller: Seq<u8>,
    e_id: Seq<u8>,
    t_id: Seq<u8>,
    s_id: Seq<u8>,
    q: u32,
    tag: Seq<u8>,
) -> Seq<u8> {
    caller + e_id + t_id + s_id + spec_dec(q as nat) + tag
}

/// The identity gate.  KYC takes precedence over bot protection; with
/// neither flag set no check is performed.  `sig_valid` is the host's
/// verdict of verifying `signature` over `data` against the registered
/// signer; it is only accepted once `data` equals the expected payload.
pub open spec fn spec_check_identity(
    e: EventV,
    t: TicketTypeV,
    st: TicketStageV,
    caller: Seq<u8>,
    q: u32,
    signature: Option<Seq<u8>>,
    data: Option<Seq<u8>>,
    sig_valid: bool,
) -> Result<(), TicketingError> {
    if e.has_kyc {
        match data {
            None => Err(TicketingError::MissingPayload),
            Some(msg) => {
                if msg != spec_payload(caller, e.id, t.id, st.id, q, spec_kyc_tag()) {
                    Err(TicketingError::PayloadInvalid)
                } else {
                    match signature {
                        None => Err(TicketingError::MissingSignature),
                        Some(_) => {
                            if sig_valid {
                                Ok(())
                            } else {
                                Err(TicketingError::SignatureInvalid)
                            }
                        },
                    }
                }
            },
        }
    } else if e.bot_protection {
        match signature {
            None => Err(TicketingError::MissingSignature),
            Some(_) => {
                match data {
                    None => Err(TicketingError::MissingPayload),
                    Some(msg) => {
                        if msg != spec_payload(caller, e.id, t.id, st.id, q, spec_bot_tag()) {
                            Err(TicketingError::PayloadInvalid)
                        } else {
                            if sig_valid {
                                Ok(())
                            } else {
                                Err(TicketingError::SignatureInvalid)
                            }
                        }
                    },
                }
            },
        }
    } else {
        Ok(())
    }
}

/// The platform's share of `total_amount` at `cut_percentage` basis points:
/// `total_amount * cut_percentage / ROYALTIES_MAX`, rounded down.
pub open spec fn spec_cut_amount(total_amount: u128, cut_percentage: u64) -> int {
    total_amount as int * cut_percentage as int / (ROYALTIES_MAX as int)
}

/// Splitting the numerator at the denominator computes the exact quotient,
/// and the share never exceeds the whole.
proof fn lemma_cut_amount(total: int, c: int, d: int)
    requires
        0 <= total,
        0 <= c <= d,
        0 < d,
    ensures
        (total / d) * c + ((total % d) * c) / d == (total * c) / d,
        (total * c) / d <= total,
{
    let q = total / d;
    let r = total % d;
    vstd::arithmetic::div_mod::lemma_fundamental_div_mod(total, d);
    assert(total * c == r * c + (q * c) * d) by (nonlinear_arith)
        requires
            total == d * q + r,
    ;
    vstd::arithmetic::div_mod::lemma_hoist_over_denominator(r * c, q * c, d as nat);
    assert(total * c <= total * d) by (nonlinear_arith)
        requires
            0 <= total,
            c <= d,
    ;
    vstd::arithmetic::div_mod::lemma_div_is_ordered(total * c, total * d, d);
    vstd::arithmetic::div_mod::lemma_div_by_multiple(total, d);
}

/// The name of a minted unit: the type's base name, suffixed with the
/// unit's nonce in decimal when the event appends numbers.
pub open spec fn spec_nft_name(nonce: u64, name: Seq<u8>, e: EventV) -> Seq<u8> {
    if e.append_number {
        name + spec_dec(nonce as nat)
    } else {
        name
    }
}

/// The token instances a mint hands out: one unit per nonce, sequential
/// from `start`.
pub open spec fn spec_minted(token: Seq<u8>, start: u64, q: u32) -> Seq<PaymentV> {
    Seq::new(
        q as nat,
        |i: int| PaymentV { token: token, nonce: (start + i) as u64, amount: NFT_AMOUNT },
    )
}

/// The display names of a minted batch.
pub open spec fn spec_mint_names(base: Seq<u8>, e: EventV, start: u64, q: u32) -> Seq<Seq<u8>> {
    Seq::new(q as nat, |i: int| spec_nft_name((start + i) as u64, base, e))
}

/// What one atomic mint does to the state: the event's, type's and (when a
/// stage is present) stage's mint counts, the caller's three counters and
/// the collection's nonce counter all advance by `q` together, and a mint
/// record is logged carrying whether the event reached exactly its
/// capacity.
pub open spec fn spec_mint_apply(
    s: StateV,
    e: EventV,
    t: TicketTypeV,
    st_opt: Option<TicketStageV>,
    to: Seq<u8>,
    q: u32,
) -> StateV {
    let sold = e.mint_count + q == e.max_capacity;
    let entry = match st_opt {
        Some(st) => DomainEventV::StageMint {
            event_id: e.id,
            type_id: t.id,
            stage_id: st.id,
            sold_out: sold,
        },
        None => DomainEventV::TypeMint { event_id: e.id, type_id: t.id, sold_out: sold },
    };
    StateV {
        event_by_id: kv_upsert(
            s.event_by_id,
            seq![e.id],
            EventV { mint_count: (e.mint_count + q) as u32, ..e },
        ),
        next_nonce: kv_upsert(s.next_nonce, seq![e.token], (e.mint_count + q + 1) as u64),
        buys_per_event: kv_upsert(
            s.buys_per_event,
            seq![to, e.id],
            (s.buys_event(to, e.id) + q) as u32,
        ),
        buys_per_ticket_type: kv_upsert(
            s.buys_per_ticket_type,
            seq![to, e.id, t.id],
            (s.buys_type(to, e.id, t.id) + q) as u32,
        ),
        buys_per_ticket_stage: match st_opt {
            Some(st) => kv_upsert(
                s.buys_per_ticket_stage,
                seq![to, e.id, t.id, st.id],
                (s.buys_stage(to, e.id, t.id, st.id) + q) as u32,
            ),
            None => s.buys_per_ticket_stage,
        },
        ticket_type_by_id: kv_upsert(
            s.ticket_type_by_id,
            seq![e.id, t.id],
            TicketTypeV { mint_count: (t.mint_count + q) as u32, ..t },
        ),
        ticket_stages: match st_opt {
            Some(st) => kv_upsert(
                s.ticket_stages,
                seq![e.id, t.id, st.id],
                TicketStageV { mint_count: (st.mint_count + q) as u32, ..st },
            ),
            None => s.ticket_stages,
        },
        log: s.log.push(entry),
        ..s
    }
}

/// The organizer's share of a settled fungible payment: what remains after
/// the platform's cut.
pub open spec fn spec_owner_share(s: StateV, amount: u128) -> int {
    amount - spec_cut_amount(amount, s.fees)
}

/// The accrued income entry for `token` after adding `share`.
pub open spec fn spec_income_after(s: StateV, payment: PaymentV, share: int) -> PaymentV {
    if s.has_income(payment.token) {
        let cur = s.income_of(payment.token);
        PaymentV { amount: (cur.amount + share) as u128, ..cur }
    } else {
        PaymentV { token: payment.token, nonce: payment.nonce, amount: share as u128 }
    }
}

/// Whether the income ledger can absorb the organizer's share of `payment`
/// without exceeding the machine's integer range.
pub open spec fn spec_income_fits(s: StateV, payment: PaymentV) -> bool {
    payment.nonce > 0 || payment.amount == 0 || !s.has_income(payment.token) || s.income_of(
        payment.token,
    ).amount + spec_owner_share(s, payment.amount) <= u128::MAX
}

/// Income distribution.  A non-fungible (positive-nonce) payment is not
/// distributed; a fungible payment splits into the platform's cut — handed
/// back as an immediate transfer to the platform owner — and the
/// organizer's share, which accrues in the income ledger under the payment
/// token.
pub open spec fn spec_distribute(s: StateV, payment: PaymentV) -> (StateV, Option<PaymentV>) {
    if payment.nonce > 0 {
        (s, None)
    } else if payment.amount > 0 {
        let platform_cut = spec_cut_amount(payment.amount, s.fees);
        let share = spec_owner_share(s, payment.amount);
        let s2 = if share > 0 {
            StateV {
                income: kv_upsert(
                    s.income,
                    seq![payment.token],
                    spec_income_after(s, payment, share),
                ),
                ..s
            }
        } else {
            s
        };
        let fee = if platform_cut > 0 {
            Some(
                PaymentV {
                    token: payment.token,
                    nonce: payment.nonce,
                    amount: platform_cut as u128,
                },
            )
        } else {
            None
        };
        (s2, fee)
    } else {
        (s, None)
    }
}

/// Index of the first price entry matching `(token, nonce)`, or `-1`.
pub open spec fn spec_find_price(prices: Seq<PaymentV>, token: Seq<u8>, nonce: u64) -> int
    decreases prices.len(),
{
    if prices.len() == 0 {
        -1
    } else if prices[0].token == token && prices[0].nonce == nonce {
        0
    } else {
        let r = spec_find_price(prices.drop_first(), token, nonce);
        if r < 0 {
            -1
        } else {
            r + 1
        }
    }
}

/// `spec_find_price` either reports no match at all or the first match.
pub proof fn lemma_find_price_props(prices: Seq<PaymentV>, token: Seq<u8>, nonce: u64)
    ensures
        spec_find_price(prices, token, nonce) == -1 ==> forall|j: int|
            0 <= j < prices.len() ==> !(prices[j].token == token && prices[j].nonce == nonce),
        spec_find_price(prices, token, nonce) != -1 ==> {
            let i = spec_find_price(prices, token, nonce);
            &&& 0 <= i < prices.len()
            &&& prices[i].token == token && prices[i].nonce == nonce
            &&& forall|j: int|
                0 <= j < i ==> !(prices[j].token == token && prices[j].nonce == nonce)
        },
    decreases prices.len(),
{
    if prices.len() == 0 {
    } else if prices[0].token == token && prices[0].nonce == nonce {
    } else {
        let rest = prices.drop_first();
        lemma_find_price_props(rest, token, nonce);
        assert(forall|j: int| 0 <= j < rest.len() ==> rest[j] == prices[j + 1]);
        let r = spec_find_price(rest, token, nonce);
        if r < 0 {
            assert forall|j: int|
                0 <= j < prices.len() implies !(prices[j].token == token && prices[j].nonce
                == nonce) by {
                if j > 0 {
                    assert(prices[j] == rest[j - 1]);
                }
            }
        } else {
            assert(prices[r + 1] == rest[r]);
            assert forall|j: int|
                0 <= j < r + 1 implies !(prices[j].token == token && prices[j].nonce == nonce) by {
                if j > 0 {
                    assert(prices[j] == rest[j - 1]);
                }
            }
        }
    }
}

/// If `i` is the first matching price index, `spec_find_price` is `i`.
pub proof fn lemma_find_price_first(prices: Seq<PaymentV>, token: Seq<u8>, nonce: u64, i: int)
    requires
        0 <= i < prices.len(),
        prices[i].token == token && prices[i].nonce == nonce,
        forall|j: int| 0 <= j < i ==> !(prices[j].token == token && prices[j].nonce == nonce),
    ensures
        spec_find_price(prices, token, nonce) == i,
    decreases i,
{
    if i == 0 {
    } else {
        assert(forall|j: int|
            0 <= j < prices.drop_first().len() ==> prices.drop_first()[j] == prices[j + 1]);
        lemma_find_price_first(prices.drop_first(), token, nonce, i - 1);
    }
}

/// What a settled payment reconciliation hands back: the settled payment
/// used for distribution, the unit price matched, and any surplus refunded
/// to the caller.
pub struct PaymentOutcome {
    pub settled: Payment,
    pub unit_price: u128,
    pub refund: Option<Payment>,
}

/// The view of a `PaymentOutcome`.
pub ghost struct PaymentOutcomeV {
    pub settled: PaymentV,
    pub unit_price: u128,
    pub refund: Option<PaymentV>,
}

impl View for PaymentOutcome {
    type V = PaymentOutcomeV;

    open spec fn view(&self) -> PaymentOutcomeV {
        PaymentOutcomeV {
            settled: self.settled@,
            unit_price: self.unit_price,
            refund: self.refund.deep_view(),
        }
    }
}

/// Payment reconciliation.  In direct mode the attached payment must match
/// a price entry by token and nonce and equal the required total exactly.
/// In swap mode the swap collaborator's output must match a price entry,
/// cover the total, and any surplus is refunded; the settled payment is
/// exactly the total.
pub open spec fn spec_reconcile(
    stage: TicketStageV,
    q: u32,
    payment: PaymentV,
    swap_output: Option<PaymentV>,
) -> Result<PaymentOutcomeV, TicketingError> {
    match swap_output {
        Some(out) => {
            let i = spec_find_price(stage.prices, out.token, out.nonce);
            if i < 0 {
                Err(TicketingError::SwapTokenInvalid)
            } else {
                let price = stage.prices[i].amount;
                let total = price as int * q as int;
                if (out.amount as int) < total {
                    Err(TicketingError::InsufficientSwapOutput)
                } else {
                    Ok(
                        PaymentOutcomeV {
                            settled: PaymentV {
                                token: out.token,
                                nonce: out.nonce,
                                amount: total as u128,
                            },
                            unit_price: price,
                            refund: if out.amount as int > total {
                                Some(
                                    PaymentV {
                                        token: out.token,
                                        nonce: out.nonce,
                                        amount: (out.amount - total) as u128,
                                    },
                                )
                            } else {
                                None
                            },
                        },
                    )
                }
            }
        },
        None => {
            let i = spec_find_price(stage.prices, payment.token, payment.nonce);
            if i < 0 {
                Err(TicketingError::PaymentMismatch)
            } else {
                let price = stage.prices[i].amount;
                let total = price as int * q as int;
                if payment.amount as int != total {
                    Err(TicketingError::PaymentMismatch)
                } else {
                    Ok(PaymentOutcomeV { settled: payment, unit_price: price, refund: None })
                }
            }
        },
    }
}

impl Ticketing {
    /// Guards that an event record exists.
    pub fn is_event_valid(&self, event_id: &Vec<u8>) -> (r: Result<(), TicketingError>)
        ensures
            r == (if self@.has_event(event_id@) {
                Ok::<(), TicketingError>(())
            } else {
                Err::<(), TicketingError>(TicketingError::EventNotFound)
            }),
    {
        let key = k1(event_id);
        if self.event_by_id.contains(&key) {
            Ok(())
        } else {
            Err(TicketingError::EventNotFound)
        }
    }

    /// Guards that a ticket type record exists under the event.
    pub fn is_ticket_type_valid(&self, event_id: &Vec<u8>, ticket_type_id: &Vec<u8>) -> (r: Result<
        (),
        TicketingError,
    >)
        ensures
            r == (if self@.has_type(event_id@, ticket_type_id@) {
                Ok::<(), TicketingError>(())
            } else {
                Err::<(), TicketingError>(TicketingError::TypeNotFound)
            }),
    {
        let key = k2(event_id, ticket_type_id);
        if self.ticket_type_by_id.contains(&key) {
            Ok(())
        } else {
            Err(TicketingError::TypeNotFound)
        }
    }

    /// The stage record under the given ids, or `StageNotFound`.
    pub fn is_ticket_stage_valid(
        &self,
        event_id: &Vec<u8>,
        ticket_type_id: &Vec<u8>,
        ticket_stage_id: &Vec<u8>,
    ) -> (r: Result<TicketStage, TicketingError>)
        ensures
            match r {
                Ok(st) => self@.has_stage(event_id@, ticket_type_id@, ticket_stage_id@) && st@
                    == self@.stage_of(event_id@, ticket_type_id@, ticket_stage_id@),
                Err(er) => er == TicketingError::StageNotFound && !self@.has_stage(
                    event_id@,
                    ticket_type_id@,
                    ticket_stage_id@,
                ),
            },
    {
        let key = k3(event_id, ticket_type_id, ticket_stage_id);
        match self.ticket_stages.find(&key) {
            Some(i) => Ok(clone_ticket_stage(self.ticket_stages.val_at(i))),
            None => Err(TicketingError::StageNotFound),
        }
    }

    /// The event record under `event_id`, or `EventNotFound`.
    pub fn does_event_exists(&self, event_id: &Vec<u8>) -> (r: Result<Event, TicketingError>)
        ensures
            match r {
                Ok(e) => self@.has_event(event_id@) && e@ == self@.event_of(event_id@),
                Err(er) => er == TicketingError::EventNotFound && !self@.has_event(event_id@),
            },
    {
        let key = k1(event_id);
        match self.event_by_id.find(&key) {
            Some(i) => Ok(clone_event(self.event_by_id.val_at(i))),
            None => Err(TicketingError::EventNotFound),
        }
    }

    /// The ticket type record under the given ids, or `TypeNotFound`.
    pub fn does_ticket_type_exists(&self, event_id: &Vec<u8>, ticket_type_id: &Vec<u8>) -> (r:
        Result<TicketType, TicketingError>)
        ensures
            match r {
                Ok(t) => self@.has_type(event_id@, ticket_type_id@) && t@ == self@.type_of(
                    event_id@,
                    ticket_type_id@,
                ),
                Err(er) => er == TicketingError::TypeNotFound && !self@.has_type(
                    event_id@,
                    ticket_type_id@,
                ),
            },
    {
        let key = k2(event_id, ticket_type_id);
        match self.ticket_type_by_id.find(&key) {
            Some(i) => Ok(clone_ticket_type(self.ticket_type_by_id.val_at(i))),
            None => Err(TicketingError::TypeNotFound),
        }
    }

    /// Whether `address` is whitelisted for the stage.
    pub fn is_whitelisted(
        &self,
        event_id: &Vec<u8>,
        ticket_type_id: &Vec<u8>,
        ticket_stage_id: &Vec<u8>,
        address: &Vec<u8>,
    ) -> (r: bool)
        ensures
            r == self@.whitelisted(event_id@, ticket_type_id@, ticket_stage_id@, address@),
    {
        let key = k4(event_id, ticket_type_id, ticket_stage_id, address);
        self.whitelist_wallets.contains(&key)
    }

    /// Guards that the stage is active.
    pub fn require_is_minting(&self, stage: &TicketStage) -> (r: Result<(), TicketingError>)
        ensures
            r == (if stage@.active {
                Ok::<(), TicketingError>(())
            } else {
                Err::<(), TicketingError>(TicketingError::StageInactive)
            }),
    {
        if stage.active {
            Ok(())
        } else {
            Err(TicketingError::StageInactive)
        }
    }

    /// The caller's purchase count in event `event_id`.
    pub fn get_buys_per_event(&self, user: &Vec<u8>, event_id: &Vec<u8>) -> (r: u32)
        ensures
            r == self@.buys_event(user@, event_id@),
    {
        let key = k2(user, event_id);
        match self.buys_per_event.find(&key) {
            Some(i) => *self.buys_per_event.val_at(i),
            None => 0,
        }
    }

    /// The caller's purchase count of ticket type `(event_id, type_id)`.
    pub fn get_buys_per_ticket_type(
        &self,
        user: &Vec<u8>,
        event_id: &Vec<u8>,
        ticket_type_id: &Vec<u8>,
    ) -> (r: u32)
        ensures
            r == self@.buys_type(user@, event_id@, ticket_type_id@),
    {
        let key = k3(user, event_id, ticket_type_id);
        match self.buys_per_ticket_type.find(&key) {
            Some(i) => *self.buys_per_ticket_type.val_at(i),
            None => 0,
        }
    }

    /// The caller's purchase count in stage `(event_id, type_id, stage_id)`.
    pub fn get_buys_per_ticket_stage(
        &self,
        user: &Vec<u8>,
        event_id: &Vec<u8>,
        ticket_type_id: &Vec<u8>,
        ticket_stage_id: &Vec<u8>,
    ) -> (r: u32)
        ensures
            r == self@.buys_stage(user@, event_id@, ticket_type_id@, ticket_stage_id@),
    {
        let key = k4(user, event_id, ticket_type_id, ticket_stage_id);
        match self.buys_per_ticket_stage.find(&key) {
            Some(i) => *self.buys_per_ticket_stage.val_at(i),
            None => 0,
        }
    }

    /// The per-user limit checks against the caller's existing counters.
    pub fn check_buys_limits(
        &self,
        caller: &Vec<u8>,
        quantity: u32,
        event: &Event,
        ticket_type: &TicketType,
        ticket_stage: &TicketStage,
    ) -> (r: Result<(), TicketingError>)
        ensures
            r == spec_limit_check(self@, caller@, quantity, event@, ticket_type@, ticket_stage@),
    {
        if ticket_stage.max_per_user > 0 {
            let stage_counts = self.get_buys_per_ticket_stage(
                caller,
                &event.id,
                &ticket_type.id,
                &ticket_stage.id,
            );
            if stage_counts as u64 + quantity as u64 > ticket_stage.max_per_user as u64 {
                return Err(TicketingError::LimitExceeded(Tier::Stage));
            }
        }
        if ticket_type.max_per_user > 0 {
            let ticket_type_counts = self.get_buys_per_ticket_type(
                caller,
                &event.id,
                &ticket_type.id,
            );
            if ticket_type_counts as u64 + quantity as u64 > ticket_type.max_per_user as u64 {
                return Err(TicketingError::LimitExceeded(Tier::Type));
            }
        }
        if event.max_per_user > 0 {
            let event_counts = self.get_buys_per_event(caller, &event.id);
            if event_counts as u64 + quantity as u64 > event.max_per_user as u64 {
                return Err(TicketingError::LimitExceeded(Tier::Event));
            }
        }
        Ok(())
    }

    /// The capacity checks of a stage purchase.
    pub fn check_sold_out(
        &self,
        event: &Event,
        ticket_type: &TicketType,
        ticket_stage: &TicketStage,
        count: u32,
    ) -> (r: Result<(), TicketingError>)
        ensures
            r == spec_sold_out_check(event@, ticket_type@, ticket_stage@, count),
    {
        if ticket_stage.mint_count as u64 + count as u64 > ticket_stage.mint_limit as u64 {
            return Err(TicketingError::SoldOut(Tier::Stage));
        }
        if ticket_type.mint_count as u64 + count as u64 > ticket_type.mint_limit as u64 {
            return Err(TicketingError::SoldOut(Tier::Type));
        }
        if event.mint_count as u64 + count as u64 > event.max_capacity as u64 {
            return Err(TicketingError::SoldOut(Tier::Event));
        }
        Ok(())
    }

    /// The capacity checks of a stage-less mint.
    pub fn check_type_sold_out(&self, event: &Event, ticket_type: &TicketType, count: u32) -> (r:
        Result<(), TicketingError>)
        ensures
            r == spec_type_sold_out_check(event@, ticket_type@, count),
    {
        if ticket_type.mint_count as u64 + count as u64 > ticket_type.mint_limit as u64 {
            return Err(TicketingError::SoldOut(Tier::Type));
        }
        if event.mint_count as u64 + count as u64 > event.max_capacity as u64 {
            return Err(TicketingError::SoldOut(Tier::Event));
        }
        Ok(())
    }

    /// The full ordered validation pipeline: on success, the three records a
    /// purchase works on; on failure, the first failing check's error.  A
    /// pure read — no state changes either way.
    pub fn common_buy_check(
        &self,
        event_id: &Vec<u8>,
        ticket_type_id: &Vec<u8>,
        ticket_stage_id: &Vec<u8>,
        quantity: u32,
        caller: &Vec<u8>,
        now: u64,
    ) -> (r: Result<(Event, TicketType, TicketStage), TicketingError>)
        ensures
            match r {
                Ok(recs) => {
                    &&& spec_buy_check(
                        self@,
                        event_id@,
                        ticket_type_id@,
                        ticket_stage_id@,
                        quantity,
                        caller@,
                        now,
                    ) == Ok::<(), TicketingError>(())
                    &&& recs.0@ == self@.event_of(event_id@)
                    &&& recs.1@ == self@.type_of(event_id@, ticket_type_id@)
                    &&& recs.2@ == self@.stage_of(event_id@, ticket_type_id@, ticket_stage_id@)
                },
                Err(er) => spec_buy_check(
                    self@,
                    event_id@,
                    ticket_type_id@,
                    ticket_stage_id@,
                    quantity,
                    caller@,
                    now,
                ) == Err::<(), TicketingError>(er),
            },
    {
        let event = match self.does_event_exists(event_id) {
            Ok(e) => e,
            Err(er) => {
                return Err(er);
            },
        };
        let ticket_type = match self.does_ticket_type_exists(event_id, ticket_type_id) {
            Ok(t) => t,
            Err(er) => {
                return Err(er);
            },
        };
        let ticket_stage = match self.is_ticket_stage_valid(
            event_id,
            ticket_type_id,
            ticket_stage_id,
        ) {
            Ok(st) => st,
            Err(er) => {
                return Err(er);
            },
        };
        match self.require_is_minting(&ticket_stage) {
            Ok(()) => (),
            Err(er) => {
                return Err(er);
            },
        }
        if now < ticket_stage.start_time {
            return Err(TicketingError::NotStarted);
        }
        if ticket_stage.end_time != 0 && now > ticket_stage.end_time {
            return Err(TicketingError::Ended);
        }
        if ticket_stage.has_whitelist {
            if !self.is_whitelisted(event_id, ticket_type_id, ticket_stage_id, caller) {
                return Err(TicketingError::NotWhitelisted);
            }
        }
        if quantity == 0 {
            return Err(TicketingError::InvalidQuantity);
        }
        match self.check_buys_limits(caller, quantity, &event, &ticket_type, &ticket_stage) {
            Ok(()) => (),
            Err(er) => {
                return Err(er);
            },
        }
        match self.check_sold_out(&event, &ticket_type, &ticket_stage, quantity) {
            Ok(()) => (),
            Err(er) => {
                return Err(er);
            },
        }
        Ok((event, ticket_type, ticket_stage))
    }

    /// Index of the first price entry of `prices` matching `(token, nonce)`.
    fn find_price(&self, prices: &Vec<Payment>, token: &Vec<u8>, nonce: u64) -> (r: Option<usize>)
        ensures
            match r {
                Some(i) => i < prices.deep_view().len() && spec_find_price(
                    prices.deep_view(),
                    token@,
                    nonce,
                ) == i,
                None => spec_find_price(prices.deep_view(), token@, nonce) == -1,
            },
    {
        let n = prices.len();
        for i in 0..n
            invariant
                n == prices@.len(),
                prices.deep_view().len() == prices@.len(),
                forall|j: int| 0 <= j < prices@.len() ==> prices.deep_view()[j] == prices@[j]@,
                forall|j: int|
                    0 <= j < i ==> !(prices.deep_view()[j].token == token@
                        && prices.deep_view()[j].nonce == nonce),
        {
            if bytes_eq(&prices[i].token, token) && prices[i].nonce == nonce {
                proof {
                    lemma_find_price_first(prices.deep_view(), token@, nonce, i as int);
                }
                return Some(i);
            }
        }
        proof {
            lemma_find_price_props(prices.deep_view(), token@, nonce);
        }
        None
    }

    /// Payment reconciliation: resolves the caller's attached payment (or,
    /// in swap mode, the swap collaborator's output, supplied by the host)
    /// into the exact settled payment, unit price and surplus refund.
    pub fn common_payment_check(
        &self,
        ticket_stage: &TicketStage,
        quantity: u32,
        payment: &Payment,
        swap_output: Option<Payment>,
    ) -> (r: Result<PaymentOutcome, TicketingError>)
        ensures
            match r {
                Ok(out) => spec_reconcile(ticket_stage@, quantity, payment@, swap_output.deep_view())
                    == Ok::<PaymentOutcomeV, TicketingError>(out@),
                Err(er) => spec_reconcile(
                    ticket_stage@,
                    quantity,
                    payment@,
                    swap_output.deep_view(),
                ) == Err::<PaymentOutcomeV, TicketingError>(er),
            },
    {
        match swap_output {
            Some(out) => {
                let i = match self.find_price(&ticket_stage.prices, &out.token, out.nonce) {
                    Some(i) => i,
                    None => {
                        return Err(TicketingError::SwapTokenInvalid);
                    },
                };
                let price_per_nft = ticket_stage.prices[i].amount;
                proof {
                    assert(ticket_stage.prices.deep_view()[i as int] == ticket_stage.prices@[
                        i as int]@);
                }
                let total_value = match price_per_nft.checked_mul(quantity as u128) {
                    Some(t) => t,
                    None => {
                        return Err(TicketingError::InsufficientSwapOutput);
                    },
                };
                if out.amount < total_value {
                    return Err(TicketingError::InsufficientSwapOutput);
                }
                let refund = if out.amount > total_value {
                    Some(
                        Payment {
                            token: clone_bytes(&out.token),
                            nonce: out.nonce,
                            amount: out.amount - total_value,
                        },
                    )
                } else {
                    None
                };
                Ok(
                    PaymentOutcome {
                        settled: Payment {
                            token: clone_bytes(&out.token),
                            nonce: out.nonce,
                            amount: total_value,
                        },
                        unit_price: price_per_nft,
                        refund,
                    },
                )
            },
            None => {
                let i = match self.find_price(&ticket_stage.prices, &payment.token, payment.nonce) {
                    Some(i) => i,
                    None => {
                        return Err(TicketingError::PaymentMismatch);
                    },
                };
                let price_per_nft = ticket_stage.prices[i].amount;
                proof {
                    assert(ticket_stage.prices.deep_view()[i as int] == ticket_stage.prices@[
                        i as int]@);
                }
                let total_value = match price_per_nft.checked_mul(quantity as u128) {
                    Some(t) => t,
                    None => {
                        return Err(TicketingError::PaymentMismatch);
                    },
                };
                if payment.amount != total_value {
                    return Err(TicketingError::PaymentMismatch);
                }
                Ok(
                    PaymentOutcome {
                        settled: clone_payment(payment),
                        unit_price: price_per_nft,
                        refund: None,
                    },
                )
            },
        }
    }

    /// The expected attestation payload for the given purchase and tag.
    fn build_payload(
        &self,
        caller: &Vec<u8>,
        event: &Event,
        ticket_type: &TicketType,
        ticket_stage: &TicketStage,
        quantity: u32,
        tag: Vec<u8>,
    ) -> (r: Vec<u8>)
        ensures
            r@ == spec_payload(caller@, event.id@, ticket_type.id@, ticket_stage.id@, quantity, tag@),
    {
        let mut computed: Vec<u8> = Vec::new();
        proof {
            assert(computed@ =~= Seq::<u8>::empty());
        }
        append_bytes(&mut computed, caller);
        append_bytes(&mut computed, &event.id);
        append_bytes(&mut computed, &ticket_type.id);
        append_bytes(&mut computed, &ticket_stage.id);
        let digits = dec_bytes(quantity as u64);
        append_bytes(&mut computed, &digits);
        append_bytes(&mut computed, &tag);
        proof {
            assert(Seq::<u8>::empty() + caller@ =~= caller@);
        }
        computed
    }

    /// The identity and anti-bot gate.  The expected payload is rebuilt
    /// here; `sig_valid` is the host's verdict of the ed25519 check of
    /// `signature` over `data` against the registered signer.
    pub fn check_kyc(
        &self,
        event: &Event,
        ticket_type: &TicketType,
        ticket_stage: &TicketStage,
        caller: &Vec<u8>,
        quantity: u32,
        signature: &Option<Vec<u8>>,
        data: &Option<Vec<u8>>,
        sig_valid: bool,
    ) -> (r: Result<(), TicketingError>)
        ensures
            r == spec_check_identity(
                event@,
                ticket_type@,
                ticket_stage@,
                caller@,
                quantity,
                signature.deep_view(),
                data.deep_view(),
                sig_valid,
            ),
    {
        if event.has_kyc {
            let msg = match data {
                Some(m) => m,
                None => {
                    return Err(TicketingError::MissingPayload);
                },
            };
            proof {
                assert(msg.deep_view() =~= msg@);
            }
            let mut tag: Vec<u8> = Vec::new();
            tag.push(104);
            tag.push(97);
            tag.push(115);
            tag.push(95);
            tag.push(107);
            tag.push(121);
            tag.push(99);
            proof {
                assert(tag@ =~= spec_kyc_tag());
            }
            let computed = self.build_payload(caller, event, ticket_type, ticket_stage, quantity, tag);
            if !bytes_eq(&computed, msg) {
                return Err(TicketingError::PayloadInvalid);
            }
            match signature {
                Some(_) => {
                    if sig_valid {
                        Ok(())
                    } else {
                        Err(TicketingError::SignatureInvalid)
                    }
                },
                None => Err(TicketingError::MissingSignature),
            }
        } else if event.bot_protection {
            if signature.is_none() {
                return Err(TicketingError::MissingSignature);
            }
            let msg = match data {
                Some(m) => m,
                None => {
                    return Err(TicketingError::MissingPayload);
                },
            };
            proof {
                assert(msg.deep_view() =~= msg@);
            }
            let mut tag: Vec<u8> = Vec::new();
            tag.push(98);
            tag.push(111);
            tag.push(116);
            tag.push(95);
            tag.push(112);
            tag.push(114);
            tag.push(111);
            tag.push(116);
            tag.push(101);
            tag.push(99);
            tag.push(116);
            tag.push(105);
            tag.push(111);
            tag.push(110);
            proof {
                assert(tag@ =~= spec_bot_tag());
            }
            let computed = self.build_payload(caller, event, ticket_type, ticket_stage, quantity, tag);
            if !bytes_eq(&computed, msg) {
                return Err(TicketingError::PayloadInvalid);
            }
            if sig_valid {
                Ok(())
            } else {
                Err(TicketingError::SignatureInvalid)
            }
        } else {
            Ok(())
        }
    }

    /// `total_amount * cut_percentage / ROYALTIES_MAX`, exactly and without
    /// overflow.
    pub fn calculate_cut_amount(&self, total_amount: u128, cut_percentage: u64) -> (r: u128)
        requires
            cut_percentage <= ROYALTIES_MAX,
        ensures
            r == spec_cut_amount(total_amount, cut_percentage),
            r <= total_amount,
    {
        proof {
            lemma_cut_amount(total_amount as int, cut_percentage as int, ROYALTIES_MAX as int);
        }
        let d: u128 = ROYALTIES_MAX as u128;
        let q = total_amount / d;
        let rem = total_amount % d;
        let c = cut_percentage as u128;
        proof {
            assert((q as int) * (d as int) + (rem as int) == (total_amount as int)) by {
                vstd::arithmetic::div_mod::lemma_fundamental_div_mod(total_amount as int, d as int);
            }
            assert((q as int) * (c as int) <= (total_amount as int)) by (nonlinear_arith)
                requires
                    (q as int) * (d as int) + (rem as int) == (total_amount as int),
                    (c as int) <= (d as int),
                    0 <= (q as int),
                    0 <= (rem as int),
            ;
            assert((rem as int) * (c as int) < (d as int) * (d as int)) by (nonlinear_arith)
                requires
                    (rem as int) < (d as int),
                    (c as int) <= (d as int),
                    0 <= (rem as int),
                    0 <= (c as int),
            ;
        }
        let part1 = q * c;
        let part2 = rem * c / d;
        proof {
            assert((part2 as int) <= (rem as int)) by (nonlinear_arith)
                requires
                    (part2 as int) == ((rem as int) * (c as int)) / (d as int),
                    0 <= (rem as int),
                    0 <= (c as int),
                    (c as int) <= (d as int),
                    0 < (d as int),
            ;
            assert((part1 as int) + (part2 as int) <= (total_amount as int)) by (nonlinear_arith)
                requires
                    (part1 as int) == (q as int) * (c as int),
                    (part2 as int) <= (rem as int),
                    (q as int) * (d as int) + (rem as int) == (total_amount as int),
                    (c as int) <= (d as int),
                    0 <= (q as int),
                    0 <= (rem as int),
                    0 < (d as int),
            ;
        }
        part1 + part2
    }

    /// The display name of the next minted unit.
    pub fn get_nft_name(&self, nonce: u64, name: &Vec<u8>, event: &Event) -> (r: Vec<u8>)
        ensures
            r@ == spec_nft_name(nonce, name@, event@),
    {
        if event.append_number {
            let mut r = clone_bytes(name);
            let digits = dec_bytes(nonce);
            append_bytes(&mut r, &digits);
            r
        } else {
            clone_bytes(name)
        }
    }

    /// Advances the event's mint count and the collection's nonce counter
    /// together by `q`; returns the first nonce of the batch.
    pub(crate) fn bump_event_and_nonce(&mut self, event: &Event, q: u32) -> (start: u64)
        requires
            old(self)@.inv(),
            old(self)@.has_event(event.id@),
            old(self)@.event_of(event.id@) == event@,
            event.mint_count + q <= event.max_capacity,
        ensures
            final(self)@.inv(),
            start == event.mint_count as u64 + 1,
            final(self)@ == (StateV {
                event_by_id: kv_upsert(
                    old(self)@.event_by_id,
                    seq![event.id@],
                    (EventV { mint_count: (event.mint_count + q) as u32, ..event@ }),
                ),
                next_nonce: kv_upsert(
                    old(self)@.next_nonce,
                    seq![event.token@],
                    (event.mint_count + q + 1) as u64,
                ),
                ..old(self)@
            }),
    {
        let ghost pre = self@;
        proof {
            lemma_key_index_props(pre.event_by_id, seq![event.id@]);
        }
        let ghost ei = crate::storage::key_index(pre.event_by_id, seq![event.id@]);
        let nonce_key = k1(&event.token);
        let start = match self.next_nonce.find(&nonce_key) {
            Some(i) => *self.next_nonce.val_at(i),
            None => {
                // every stored event's token has a nonce counter
                proof {
                    assert(false);
                }
                0
            },
        };
        let new_nonce = start + q as u64;
        let updated = Event {
            mint_count: event.mint_count + q,
            ..clone_event(event)
        };
        let event_key = k1(&event.id);
        let ghost new_ev = updated@;
        self.event_by_id.upsert(event_key, updated);
        self.next_nonce.upsert(nonce_key, new_nonce);
        proof {
            let fin = self@;
            lemma_upsert(pre.event_by_id, seq![event.id@], new_ev);
            lemma_upsert(pre.next_nonce, seq![event.token@], new_nonce);
            let ev_fin = fin.event_by_id;
            let nn_fin = fin.next_nonce;
            // uniqueness
            assert(fin.inv_unique());
            // counters: keys and values unchanged; events only grew at `event.id`
            assert forall|i: int| 0 <= i < fin.buys_per_event.len() implies {
                let kv = #[trigger] fin.buys_per_event[i];
                &&& kv.0.len() == 2
                &&& fin.has_event(kv.0[1])
                &&& kv.1 <= fin.event_of(kv.0[1]).mint_count
            } by {
                let kv = fin.buys_per_event[i];
                assert(pre.buys_per_event[i] == kv);
                if kv.0[1] == event.id@ {
                    assert(fin.event_of(kv.0[1]).mint_count == new_ev.mint_count);
                }
            }
            assert forall|i: int| 0 <= i < fin.buys_per_ticket_type.len() implies {
                let kv = #[trigger] fin.buys_per_ticket_type[i];
                &&& kv.0.len() == 3
                &&& fin.has_event(kv.0[1])
                &&& kv.1 <= fin.event_of(kv.0[1]).mint_count
            } by {
                let kv = fin.buys_per_ticket_type[i];
                assert(pre.buys_per_ticket_type[i] == kv);
                if kv.0[1] == event.id@ {
                    assert(fin.event_of(kv.0[1]).mint_count == new_ev.mint_count);
                }
            }
            assert forall|i: int| 0 <= i < fin.buys_per_ticket_stage.len() implies {
                let kv = #[trigger] fin.buys_per_ticket_stage[i];
                &&& kv.0.len() == 4
                &&& fin.has_event(kv.0[1])
                &&& kv.1 <= fin.event_of(kv.0[1]).mint_count
            } by {
                let kv = fin.buys_per_ticket_stage[i];
                assert(pre.buys_per_ticket_stage[i] == kv);
                if kv.0[1] == event.id@ {
                    assert(fin.event_of(kv.0[1]).mint_count == new_ev.mint_count);
                }
            }
            // tokens
            assert forall|i: int| 0 <= i < nn_fin.len() implies has_key(
                fin.collections,
                (#[trigger] nn_fin[i]).0,
            ) by {
                if i < pre.next_nonce.len() {
                    assert(nn_fin[i].0 == pre.next_nonce[i].0);
                } else {
                    assert(nn_fin[i].0 == seq![event.token@]);
                    assert(has_key(pre.next_nonce, seq![event.token@]));
                    lemma_key_index_props(pre.next_nonce, seq![event.token@]);
                    let k = crate::storage::key_index(pre.next_nonce, seq![event.token@]);
                    assert(has_key(pre.collections, pre.next_nonce[k].0));
                }
            }
            assert(has_key(pre.next_nonce, seq![event.token@]));
            assert forall|i: int| 0 <= i < ev_fin.len() implies {
                let ev = (#[trigger] ev_fin[i]).1;
                &&& fin.has_collection(ev.token)
                &&& has_key(fin.next_nonce, seq![ev.token])
                &&& val_of(fin.next_nonce, seq![ev.token]) == ev.mint_count as u64 + 1
            } by {
                let ev = ev_fin[i].1;
                if i == ei {
                    assert(ev == new_ev);
                    assert(ev.token == event.token@);
                    assert(val_of(fin.next_nonce, seq![event.token@]) == new_nonce);
                } else {
                    assert(ev_fin[i] == pre.event_by_id[i]);
                    assert(pre.event_by_id[ei].1.token == event.token@);
                    assert(ev.token != event.token@);
                    assert(seq![ev.token][0] == ev.token);
                    assert(seq![event.token@][0] == event.token@);
                    assert(seq![ev.token] != seq![event.token@]);
                    assert(val_of(fin.next_nonce, seq![ev.token]) == val_of(
                        pre.next_nonce,
                        seq![ev.token],
                    ));
                }
            }
            assert forall|i: int, j: int| 0 <= i < j < ev_fin.len() implies (
            #[trigger] ev_fin[i]).1.token != (#[trigger] ev_fin[j]).1.token by {
                if i != ei {
                    assert(ev_fin[i] == pre.event_by_id[i]);
                }
                if j != ei {
                    assert(ev_fin[j] == pre.event_by_id[j]);
                }
                assert(pre.event_by_id[ei].1.token == event.token@);
            }
            assert(fin.inv_types());
            assert forall|i: int| 0 <= i < ev_fin.len() implies (#[trigger] ev_fin[i]).0 == seq![
                ev_fin[i].1.id,
            ] by {
                if i == ei {
                    assert(ev_fin[i].1 == new_ev);
                    assert(ev_fin[i].0 == seq![event.id@]);
                } else {
                    assert(ev_fin[i] == pre.event_by_id[i]);
                }
            }
        }
        start
    }

    /// Adds `q` to the caller's per-event purchase counter.
    pub(crate) fn bump_buys_per_event(&mut self, to: &Vec<u8>, event_id: &Vec<u8>, q: u32)
        requires
            old(self)@.inv(),
            old(self)@.has_event(event_id@),
            old(self)@.buys_event(to@, event_id@) + q <= old(self)@.event_of(
                event_id@,
            ).mint_count,
        ensures
            final(self)@.inv(),
            final(self)@ == (StateV {
                buys_per_event: kv_upsert(
                    old(self)@.buys_per_event,
                    seq![to@, event_id@],
                    (old(self)@.buys_event(to@, event_id@) + q) as u32,
                ),
                ..old(self)@
            }),
    {
        let ghost pre = self@;
        let key = k2(to, event_id);
        let cnt = match self.buys_per_event.find(&key) {
            Some(i) => *self.buys_per_event.val_at(i),
            None => 0,
        };
        let newval = cnt + q;
        self.buys_per_event.upsert(key, newval);
        proof {
            let fin = self@;
            lemma_upsert(pre.buys_per_event, seq![to@, event_id@], newval);
            lemma_key_index_props(pre.buys_per_event, seq![to@, event_id@]);
            assert(fin.inv_unique());
            let tbl = fin.buys_per_event;
            let ki = crate::storage::key_index(pre.buys_per_event, seq![to@, event_id@]);
            assert forall|i: int| 0 <= i < tbl.len() implies {
                let kv = #[trigger] tbl[i];
                &&& kv.0.len() == 2
                &&& fin.has_event(kv.0[1])
                &&& kv.1 <= fin.event_of(kv.0[1]).mint_count
            } by {
                let kv = tbl[i];
                if ki >= 0 && i == ki {
                    assert(kv == (seq![to@, event_id@], newval));
                    assert(seq![to@, event_id@][1] == event_id@);
                } else if i < pre.buys_per_event.len() {
                    assert(kv == pre.buys_per_event[i]);
                } else {
                    assert(kv == (seq![to@, event_id@], newval));
                    assert(seq![to@, event_id@][1] == event_id@);
                }
            }
            assert(fin.inv_tokens());
            assert(fin.inv_types());
        }
    }

    /// Adds `q` to the caller's per-type purchase counter.
    pub(crate) fn bump_buys_per_ticket_type(&mut self, to: &Vec<u8>, event_id: &Vec<u8>, type_id: &Vec<u8>, q: u32)
        requires
            old(self)@.inv(),
            old(self)@.has_event(event_id@),
            old(self)@.buys_type(to@, event_id@, type_id@) + q <= old(self)@.event_of(
                event_id@,
            ).mint_count,
        ensures
            final(self)@.inv(),
            final(self)@ == (StateV {
                buys_per_ticket_type: kv_upsert(
                    old(self)@.buys_per_ticket_type,
                    seq![to@, event_id@, type_id@],
                    (old(self)@.buys_type(to@, event_id@, type_id@) + q) as u32,
                ),
                ..old(self)@
            }),
    {
        let ghost pre = self@;
        let key = k3(to, event_id, type_id);
        let cnt = match self.buys_per_ticket_type.find(&key) {
            Some(i) => *self.buys_per_ticket_type.val_at(i),
            None => 0,
        };
        let newval = cnt + q;
        self.buys_per_ticket_type.upsert(key, newval);
        proof {
            let fin = self@;
            lemma_upsert(pre.buys_per_ticket_type, seq![to@, event_id@, type_id@], newval);
            lemma_key_index_props(pre.buys_per_ticket_type, seq![to@, event_id@, type_id@]);
            assert(fin.inv_unique());
            let tbl = fin.buys_per_ticket_type;
            let ki = crate::storage::key_index(
                pre.buys_per_ticket_type,
                seq![to@, event_id@, type_id@],
            );
            assert forall|i: int| 0 <= i < tbl.len() implies {
                let kv = #[trigger] tbl[i];
                &&& kv.0.len() == 3
                &&& fin.has_event(kv.0[1])
                &&& kv.1 <= fin.event_of(kv.0[1]).mint_count
            } by {
                let kv = tbl[i];
                if ki >= 0 && i == ki {
                    assert(kv == (seq![to@, event_id@, type_id@], newval));
                    assert(seq![to@, event_id@, type_id@][1] == event_id@);
                } else if i < pre.buys_per_ticket_type.len() {
                    assert(kv == pre.buys_per_ticket_type[i]);
                } else {
                    assert(kv == (seq![to@, event_id@, type_id@], newval));
                    assert(seq![to@, event_id@, type_id@][1] == event_id@);
                }
            }
            assert(fin.inv_tokens());
            assert(fin.inv_types());
        }
    }

    /// Adds `q` to the caller's per-stage purchase counter.
    pub(crate) fn bump_buys_per_ticket_stage(
        &mut self,
        to: &Vec<u8>,
        event_id: &Vec<u8>,
        type_id: &Vec<u8>,
        stage_id: &Vec<u8>,
        q: u32,
    )
        requires
            old(self)@.inv(),
            old(self)@.has_event(event_id@),
            old(self)@.buys_stage(to@, event_id@, type_id@, stage_id@) + q <= old(self)@.event_of(
                event_id@,
            ).mint_count,
        ensures
            final(self)@.inv(),
            final(self)@ == (StateV {
                buys_per_ticket_stage: kv_upsert(
                    old(self)@.buys_per_ticket_stage,
                    seq![to@, event_id@, type_id@, stage_id@],
                    (old(self)@.buys_stage(to@, event_id@, type_id@, stage_id@) + q) as u32,
                ),
                ..old(self)@
            }),
    {
        let ghost pre = self@;
        let key = k4(to, event_id, type_id, stage_id);
        let cnt = match self.buys_per_ticket_stage.find(&key) {
            Some(i) => *self.buys_per_ticket_stage.val_at(i),
            None => 0,
        };
        let newval = cnt + q;
        self.buys_per_ticket_stage.upsert(key, newval);
        proof {
            let fin = self@;
            lemma_upsert(
                pre.buys_per_ticket_stage,
                seq![to@, event_id@, type_id@, stage_id@],
                newval,
            );
            lemma_key_index_props(
                pre.buys_per_ticket_stage,
                seq![to@, event_id@, type_id@, stage_id@],
            );
            assert(fin.inv_unique());
            let tbl = fin.buys_per_ticket_stage;
            let ki = crate::storage::key_index(
                pre.buys_per_ticket_stage,
                seq![to@, event_id@, type_id@, stage_id@],
            );
            assert forall|i: int| 0 <= i < tbl.len() implies {
                let kv = #[trigger] tbl[i];
                &&& kv.0.len() == 4
                &&& fin.has_event(kv.0[1])
                &&& kv.1 <= fin.event_of(kv.0[1]).mint_count
            } by {
                let kv = tbl[i];
                if ki >= 0 && i == ki {
                    assert(kv == (seq![to@, event_id@, type_id@, stage_id@], newval));
                    assert(seq![to@, event_id@, type_id@, stage_id@][1] == event_id@);
                } else if i < pre.buys_per_ticket_stage.len() {
                    assert(kv == pre.buys_per_ticket_stage[i]);
                } else {
                    assert(kv == (seq![to@, event_id@, type_id@, stage_id@], newval));
                    assert(seq![to@, event_id@, type_id@, stage_id@][1] == event_id@);
                }
            }
            assert(fin.inv_tokens());
            assert(fin.inv_types());
        }
    }

    /// Writes back an existing ticket type record.
    pub(crate) fn set_ticket_type_record(&mut self, event_id: &Vec<u8>, t: TicketType)
        requires
            old(self)@.inv(),
            old(self)@.has_type(event_id@, t.id@),
        ensures
            final(self)@.inv(),
            final(self)@ == (StateV {
                ticket_type_by_id: kv_upsert(
                    old(self)@.ticket_type_by_id,
                    seq![event_id@, t.id@],
                    t@,
                ),
                ..old(self)@
            }),
    {
        let ghost pre = self@;
        let key = k2(event_id, &t.id);
        let ghost tv = t@;
        self.ticket_type_by_id.upsert(key, t);
        proof {
            let fin = self@;
            lemma_upsert(pre.ticket_type_by_id, seq![event_id@, tv.id], tv);
            lemma_key_index_props(pre.ticket_type_by_id, seq![event_id@, tv.id]);
            assert(fin.inv_unique());
            assert(fin.inv_counters());
            assert(fin.inv_tokens());
            let tbl = fin.ticket_type_by_id;
            let ki = crate::storage::key_index(pre.ticket_type_by_id, seq![event_id@, tv.id]);
            assert forall|i: int| 0 <= i < tbl.len() implies has_key(
                fin.ticket_types,
                (#[trigger] tbl[i]).0,
            ) by {
                if i == ki {
                    assert(tbl[i].0 == seq![event_id@, tv.id]);
                    assert(pre.ticket_type_by_id[ki].0 == seq![event_id@, tv.id]);
                    assert(has_key(pre.ticket_types, pre.ticket_type_by_id[ki].0));
                } else {
                    assert(tbl[i] == pre.ticket_type_by_id[i]);
                }
            }
            assert forall|i: int| 0 <= i < fin.ticket_types.len() implies {
                let kv = #[trigger] fin.ticket_types[i];
                &&& kv.0.len() == 2
                &&& has_key(fin.ticket_type_by_id, kv.0)
            } by {
                let kv = fin.ticket_types[i];
                assert(kv == pre.ticket_types[i]);
                assert(has_key(pre.ticket_type_by_id, kv.0));
                if kv.0 == seq![event_id@, tv.id] {
                } else {
                }
            }
            assert forall|i: int| 0 <= i < tbl.len() implies {
                let kv = #[trigger] tbl[i];
                &&& kv.0.len() == 2
                &&& kv.0[1] == kv.1.id
            } by {
                if i == ki {
                    assert(tbl[i] == (seq![event_id@, tv.id], tv));
                    assert(seq![event_id@, tv.id][1] == tv.id);
                } else {
                    assert(tbl[i] == pre.ticket_type_by_id[i]);
                }
            }
        }
    }

    /// Writes back a ticket stage record.
    pub(crate) fn set_ticket_stage_record(&mut self, event_id: &Vec<u8>, type_id: &Vec<u8>, st: TicketStage)
        requires
            old(self)@.inv(),
            st.ticket_type_id@ == type_id@,
        ensures
            final(self)@.inv(),
            final(self)@ == (StateV {
                ticket_stages: kv_upsert(
                    old(self)@.ticket_stages,
                    seq![event_id@, type_id@, st.id@],
                    st@,
                ),
                ..old(self)@
            }),
    {
        let ghost pre = self@;
        let key = k3(event_id, type_id, &st.id);
        let ghost sv = st@;
        self.ticket_stages.upsert(key, st);
        proof {
            let fin = self@;
            lemma_upsert(pre.ticket_stages, seq![event_id@, type_id@, sv.id], sv);
            lemma_key_index_props(pre.ticket_stages, seq![event_id@, type_id@, sv.id]);
            assert(fin.inv_unique());
            assert(fin.inv_counters());
            assert(fin.inv_tokens());
            assert(fin.inv_types());
            let tbl = fin.ticket_stages;
            let ki = crate::storage::key_index(pre.ticket_stages, seq![event_id@, type_id@, sv.id]);
            assert forall|i: int| 0 <= i < tbl.len() implies {
                let kv = #[trigger] tbl[i];
                &&& kv.0.len() == 3
                &&& kv.0[1] == kv.1.ticket_type_id
                &&& kv.0[2] == kv.1.id
            } by {
                let kv = tbl[i];
                if ki >= 0 && i == ki {
                    assert(kv == (seq![event_id@, type_id@, sv.id], sv));
                    assert(seq![event_id@, type_id@, sv.id][1] == type_id@);
                    assert(seq![event_id@, type_id@, sv.id][2] == sv.id);
                } else if i < pre.ticket_stages.len() {
                    assert(kv == pre.ticket_stages[i]);
                } else {
                    assert(kv == (seq![event_id@, type_id@, sv.id], sv));
                    assert(seq![event_id@, type_id@, sv.id][1] == type_id@);
                    assert(seq![event_id@, type_id@, sv.id][2] == sv.id);
                }
            }
        }
    }

    /// Writes back an existing event record, keeping its identity, token
    /// and mint count.
    pub(crate) fn set_event_record(&mut self, ev: Event)
        requires
            old(self)@.inv(),
            old(self)@.has_event(ev.id@),
            old(self)@.event_of(ev.id@).mint_count == ev.mint_count,
            old(self)@.event_of(ev.id@).token == ev.token@,
        ensures
            final(self)@.inv(),
            final(self)@ == (StateV {
                event_by_id: kv_upsert(old(self)@.event_by_id, seq![ev.id@], ev@),
                ..old(self)@
            }),
    {
        let ghost pre = self@;
        proof {
            lemma_key_index_props(pre.event_by_id, seq![ev.id@]);
        }
        let ghost ei = crate::storage::key_index(pre.event_by_id, seq![ev.id@]);
        let key = k1(&ev.id);
        let ghost evv = ev@;
        self.event_by_id.upsert(key, ev);
        proof {
            let fin = self@;
            lemma_upsert(pre.event_by_id, seq![evv.id], evv);
            assert(fin.inv_unique());
            let ev_fin = fin.event_by_id;
            assert forall|i: int| 0 <= i < fin.buys_per_event.len() implies {
                let kv = #[trigger] fin.buys_per_event[i];
                &&& kv.0.len() == 2
                &&& fin.has_event(kv.0[1])
                &&& kv.1 <= fin.event_of(kv.0[1]).mint_count
            } by {
                let kv = fin.buys_per_event[i];
                assert(pre.buys_per_event[i] == kv);
                if kv.0[1] == evv.id {
                    assert(fin.event_of(kv.0[1]).mint_count == evv.mint_count);
                }
            }
            assert forall|i: int| 0 <= i < fin.buys_per_ticket_type.len() implies {
                let kv = #[trigger] fin.buys_per_ticket_type[i];
                &&& kv.0.len() == 3
                &&& fin.has_event(kv.0[1])
                &&& kv.1 <= fin.event_of(kv.0[1]).mint_count
            } by {
                let kv = fin.buys_per_ticket_type[i];
                assert(pre.buys_per_ticket_type[i] == kv);
                if kv.0[1] == evv.id {
                    assert(fin.event_of(kv.0[1]).mint_count == evv.mint_count);
                }
            }
            assert forall|i: int| 0 <= i < fin.buys_per_ticket_stage.len() implies {
                let kv = #[trigger] fin.buys_per_ticket_stage[i];
                &&& kv.0.len() == 4
                &&& fin.has_event(kv.0[1])
                &&& kv.1 <= fin.event_of(kv.0[1]).mint_count
            } by {
                let kv = fin.buys_per_ticket_stage[i];
                assert(pre.buys_per_ticket_stage[i] == kv);
                if kv.0[1] == evv.id {
                    assert(fin.event_of(kv.0[1]).mint_count == evv.mint_count);
                }
            }
            assert forall|i: int| 0 <= i < ev_fin.len() implies {
                let ev2 = (#[trigger] ev_fin[i]).1;
                &&& fin.has_collection(ev2.token)
                &&& has_key(fin.next_nonce, seq![ev2.token])
                &&& val_of(fin.next_nonce, seq![ev2.token]) == ev2.mint_count as u64 + 1
            } by {
                if i == ei {
                    assert(ev_fin[i].1 == evv);
                    assert(pre.event_by_id[ei].1.token == evv.token);
                    assert(pre.event_by_id[ei].1.mint_count == evv.mint_count);
                } else {
                    assert(ev_fin[i] == pre.event_by_id[i]);
                }
            }
            assert forall|i: int, j: int| 0 <= i < j < ev_fin.len() implies (
            #[trigger] ev_fin[i]).1.token != (#[trigger] ev_fin[j]).1.token by {
                if i != ei {
                    assert(ev_fin[i] == pre.event_by_id[i]);
                }
                if j != ei {
                    assert(ev_fin[j] == pre.event_by_id[j]);
                }
                assert(pre.event_by_id[ei].1.token == evv.token);
            }
            assert(fin.inv_types());
            assert forall|i: int| 0 <= i < ev_fin.len() implies (#[trigger] ev_fin[i]).0 == seq![
                ev_fin[i].1.id,
            ] by {
                if i == ei {
                    assert(ev_fin[i].1 == evv);
                    assert(ev_fin[i].0 == seq![evv.id]);
                } else {
                    assert(ev_fin[i] == pre.event_by_id[i]);
                }
            }
        }
    }

    /// Mints `nfts_to_send` units to `to`: advances the collection's nonce
    /// counter, derives each unit's name, updates the caller's counters and
    /// all mint counts atomically, and logs the mint.  The returned batch
    /// is what the host transfers to `to` in one go.
    pub fn send_nft(
        &mut self,
        event: &Event,
        ticket_type: &TicketType,
        ticket_stage_opt: Option<&TicketStage>,
        to: &Vec<u8>,
        nfts_to_send: u32,
    ) -> (r: Result<MintBatch, TicketingError>)
        requires
            old(self)@.inv(),
            old(self)@.has_event(event.id@),
            old(self)@.event_of(event.id@) == event@,
            old(self)@.has_type(event.id@, ticket_type.id@),
            old(self)@.type_of(event.id@, ticket_type.id@) == ticket_type@,
            event.mint_count + nfts_to_send <= event.max_capacity,
            ticket_type.mint_count + nfts_to_send <= ticket_type.mint_limit,
            match ticket_stage_opt {
                Some(st) => old(self)@.has_stage(event.id@, ticket_type.id@, st.id@) && old(
                    self,
                )@.stage_of(event.id@, ticket_type.id@, st.id@) == st@ && st.mint_count
                    + nfts_to_send <= st.mint_limit,
                None => true,
            },
        ensures
            match r {
                Ok(batch) => {
                    &&& !spec_is_sc(to@)
                    &&& final(self)@ == spec_mint_apply(
                        old(self)@,
                        event@,
                        ticket_type@,
                        ticket_stage_opt.deep_view(),
                        to@,
                        nfts_to_send,
                    )
                    &&& final(self)@.inv()
                    &&& batch.payments.deep_view() == spec_minted(
                        event.token@,
                        (event.mint_count + 1) as u64,
                        nfts_to_send,
                    )
                    &&& batch.names.deep_view() == spec_mint_names(
                        ticket_type.base_name@,
                        event@,
                        (event.mint_count + 1) as u64,
                        nfts_to_send,
                    )
                },
                Err(er) => {
                    &&& er == TicketingError::OnlyUserAccountsAllowed
                    &&& spec_is_sc(to@)
                    &&& final(self)@ == old(self)@
                },
            },
    {
        if is_smart_contract(to) {
            return Err(TicketingError::OnlyUserAccountsAllowed);
        }
        let ghost s0 = self@;
        proof {
            match ticket_stage_opt {
                Some(st) => {
                    crate::ticketing::lemma_record_ids(s0, event.id@, ticket_type.id@, st.id@);
                },
                None => {},
            }
            lemma_key_index_props(s0.buys_per_event, seq![to@, event.id@]);
            lemma_key_index_props(s0.buys_per_ticket_type, seq![to@, event.id@, ticket_type.id@]);
            assert(s0.buys_event(to@, event.id@) <= event@.mint_count);
            assert(s0.buys_type(to@, event.id@, ticket_type.id@) <= event@.mint_count);
            match ticket_stage_opt {
                Some(st) => {
                    lemma_key_index_props(
                        s0.buys_per_ticket_stage,
                        seq![to@, event.id@, ticket_type.id@, st.id@],
                    );
                    assert(s0.buys_stage(to@, event.id@, ticket_type.id@, st.id@)
                        <= event@.mint_count);
                },
                None => {},
            }
        }
        let start = self.bump_event_and_nonce(event, nfts_to_send);
        let ghost s1 = self@;
        proof {
            lemma_upsert(
                s0.event_by_id,
                seq![event.id@],
                (EventV { mint_count: (event.mint_count + nfts_to_send) as u32, ..event@ }),
            );
            assert(s1.has_event(event.id@));
            assert(s1.event_of(event.id@).mint_count == event.mint_count + nfts_to_send);
        }
        let mut payments: Vec<Payment> = Vec::new();
        let mut names: Vec<Vec<u8>> = Vec::new();
        for i in 0..nfts_to_send
            invariant
                self@ == s1,
                start == event.mint_count as u64 + 1,
                event.mint_count + nfts_to_send <= u32::MAX,
                payments@.len() == i,
                names@.len() == i,
                forall|j: int|
                    0 <= j < i ==> payments@[j]@ == (PaymentV {
                        token: event.token@,
                        nonce: (start + j) as u64,
                        amount: NFT_AMOUNT,
                    }),
                forall|j: int|
                    0 <= j < i ==> names@[j]@ == spec_nft_name(
                        (start + j) as u64,
                        ticket_type.base_name@,
                        event@,
                    ),
        {
            let nonce_i: u64 = start + i as u64;
            let name = self.get_nft_name(nonce_i, &ticket_type.base_name, event);
            names.push(name);
            payments.push(
                Payment { token: clone_bytes(&event.token), nonce: nonce_i, amount: NFT_AMOUNT },
            );
        }
        proof {
            assert forall|j: int|
                0 <= j < nfts_to_send implies payments.deep_view()[j] == spec_minted(
                event.token@,
                start,
                nfts_to_send,
            )[j] by {
                assert(payments.deep_view()[j] == payments@[j].deep_view());
            }
            assert(payments.deep_view() =~= spec_minted(event.token@, start, nfts_to_send));
            assert forall|j: int|
                0 <= j < nfts_to_send implies names.deep_view()[j] == spec_mint_names(
                ticket_type.base_name@,
                event@,
                start,
                nfts_to_send,
            )[j] by {
                assert(names.deep_view()[j] == names@[j].deep_view());
                assert(names@[j].deep_view() =~= names@[j]@);
            }
            assert(names.deep_view() =~= spec_mint_names(
                ticket_type.base_name@,
                event@,
                start,
                nfts_to_send,
            ));
        }
        self.bump_buys_per_event(to, &event.id, nfts_to_send);
        self.bump_buys_per_ticket_type(to, &event.id, &ticket_type.id, nfts_to_send);
        match ticket_stage_opt {
            Some(st) => {
                self.bump_buys_per_ticket_stage(
                    to,
                    &event.id,
                    &ticket_type.id,
                    &st.id,
                    nfts_to_send,
                );
            },
            None => {},
        }
        let new_type = TicketType {
            mint_count: ticket_type.mint_count + nfts_to_send,
            ..clone_ticket_type(ticket_type)
        };
        let new_event = Event {
            mint_count: event.mint_count + nfts_to_send,
            ..clone_event(event)
        };
        let sold = new_event.mint_count == event.max_capacity;
        match ticket_stage_opt {
            Some(st) => {
                let new_stage = TicketStage {
                    mint_count: st.mint_count + nfts_to_send,
                    ..clone_ticket_stage(st)
                };
                self.emit_stage_mint(&new_type, &new_stage, &new_event, sold);
                self.set_ticket_stage_record(&event.id, &ticket_type.id, new_stage);
            },
            None => {
                self.emit_type_mint(&new_type, &new_event, sold);
            },
        }
        self.set_ticket_type_record(&event.id, new_type);
        proof {
            assert(self@ == spec_mint_apply(
                s0,
                event@,
                ticket_type@,
                ticket_stage_opt.deep_view(),
                to@,
                nfts_to_send,
            ));
        }
        Ok(MintBatch { payments, names })
    }

    /// Splits a settled payment: the platform's cut is returned for the
    /// host to transfer to the platform owner at once; the organizer's
    /// share accrues in the income ledger.  Non-fungible proceeds are not
    /// distributed.
    pub fn distribute_income(&mut self, payment: Payment) -> (r: Option<Payment>)
        requires
            old(self)@.inv(),
            spec_income_fits(old(self)@, payment@),
        ensures
            final(self)@.inv(),
            final(self)@ == spec_distribute(old(self)@, payment@).0,
            r.deep_view() == spec_distribute(old(self)@, payment@).1,
    {
        let ghost pre = self@;
        if payment.nonce > 0 {
            return None;
        }
        if payment.amount == 0 {
            return None;
        }
        let cut = self.fees;
        let platform_cut = self.calculate_cut_amount(payment.amount, cut);
        let owner_share = payment.amount - platform_cut;
        let fee = if platform_cut > 0 {
            Some(
                Payment {
                    token: clone_bytes(&payment.token),
                    nonce: payment.nonce,
                    amount: platform_cut,
                },
            )
        } else {
            None
        };
        if owner_share > 0 {
            let key = k1(&payment.token);
            let entry = match self.income.find(&key) {
                Some(i) => {
                    let cur = self.income.val_at(i);
                    Payment {
                        token: clone_bytes(&cur.token),
                        nonce: cur.nonce,
                        amount: cur.amount + owner_share,
                    }
                },
                None => Payment {
                    token: clone_bytes(&payment.token),
                    nonce: payment.nonce,
                    amount: owner_share,
                },
            };
            let ghost ev = entry@;
            self.income.upsert(key, entry);
            proof {
                lemma_upsert(pre.income, seq![payment.token@], ev);
                assert(self@.inv_unique());
                assert(self@.inv_counters());
                assert(self@.inv_tokens());
                assert(self@.inv_types());
            }
        }
        fee
    }
}

/// What a mint hands the host to perform: the minted token instances the
/// host transfers to the recipient, and the display name of each unit the
/// host passes to the mint primitive.
pub struct MintBatch {
    pub payments: Vec<Payment>,
    pub names: Vec<Vec<u8>>,
}

} // verus!
