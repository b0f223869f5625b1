//! The ticketing engine: one state machine over explicit stores.
//!
//! The engine owns every persistent mapping of the ledger.  Host facts that
//! only the environment knows — the clock, the caller, the attached payment,
//! a swap collaborator's output, a signature verdict, an issued token id —
//! enter as plain arguments; every decision taken on them is verified here.

use vstd::prelude::*;

use crate::common::MintBatch;
use crate::common::spec_buy_check;
use crate::common::spec_check_identity;
use crate::common::spec_distribute;
use crate::common::spec_income_fits;
use crate::common::spec_is_sc;
use crate::common::spec_mint_apply;
use crate::common::spec_mint_names;
use crate::common::spec_minted;
use crate::common::spec_reconcile;
use crate::errors::TicketingError;
use crate::events::DomainEvent;
use crate::events::DomainEventV;
use crate::storage::Table;
use crate::storage::has_key;
use crate::storage::val_of;
use crate::storage::keys_unique;
use crate::storage::lemma_upsert;
use crate::structs::Event;
use crate::structs::EventV;
use crate::structs::Payment;
use crate::structs::PaymentV;
use crate::structs::TicketStage;
use crate::structs::TicketStageV;
use crate::structs::TicketType;
use crate::structs::TicketTypeV;

verus! {

/// The basis-point denominator for fee and royalty rates.
pub const ROYALTIES_MAX: u64 = 10_000;

/// The exact payment that issuing an event's token costs.
pub const NFT_ISSUE_COST: u128 = 50_000_000_000_000_000;

/// Each minted unit carries this token amount.
pub const NFT_AMOUNT: u128 = 1;

/// The ticketing engine.
pub struct Ticketing {
    /// Every event id ever accepted, including ids whose token issuance is
    /// still pending; key `[event_id]`.
    pub(crate) events: Table<()>,
    /// Event records; key `[event_id]`.
    pub(crate) event_by_id: Table<Event>,
    /// Ticket type listing per event; key `[event_id, type_id]`.
    pub(crate) ticket_types: Table<()>,
    /// Ticket type records; key `[event_id, type_id]`.
    pub(crate) ticket_type_by_id: Table<TicketType>,
    /// Ticket stage records; key `[event_id, type_id, stage_id]`.
    pub(crate) ticket_stages: Table<TicketStage>,
    /// Whitelisted wallets; key `[event_id, type_id, stage_id, address]`.
    pub(crate) whitelist_wallets: Table<()>,
    /// Per-user purchase counters; key `[address, event_id]`.
    pub(crate) buys_per_event: Table<u32>,
    /// Per-user purchase counters; key `[address, event_id, type_id]`.
    pub(crate) buys_per_ticket_type: Table<u32>,
    /// Per-user purchase counters; key `[address, event_id, type_id, stage_id]`.
    pub(crate) buys_per_ticket_stage: Table<u32>,
    /// The next nonce to mint per collection; key `[token]`.
    pub(crate) next_nonce: Table<u64>,
    /// Every issued collection token; key `[token]`.
    pub(crate) collections: Table<()>,
    /// The issued token of each event; key `[event_id]`.
    pub(crate) token_manager: Table<Vec<u8>>,
    /// Wallets holding the transfer role; key `[event_id, address]`.
    pub(crate) transfer_wallets: Table<()>,
    /// Accrued organizer income; key `[token]`.
    pub(crate) income: Table<Payment>,
    /// The platform fee rate in basis points.
    pub(crate) fees: u64,
    /// Every domain event emitted so far.
    pub(crate) log: Vec<DomainEvent>,
}

/// The mathematical state of the engine: each store as its key/value
/// sequence, in insertion order.
pub ghost struct StateV {
    pub events: Seq<(Seq<Seq<u8>>, ())>,
    pub event_by_id: Seq<(Seq<Seq<u8>>, EventV)>,
    pub ticket_types: Seq<(Seq<Seq<u8>>, ())>,
    pub ticket_type_by_id: Seq<(Seq<Seq<u8>>, TicketTypeV)>,
    pub ticket_stages: Seq<(Seq<Seq<u8>>, TicketStageV)>,
    pub whitelist_wallets: Seq<(Seq<Seq<u8>>, ())>,
    pub buys_per_event: Seq<(Seq<Seq<u8>>, u32)>,
    pub buys_per_ticket_type: Seq<(Seq<Seq<u8>>, u32)>,
    pub buys_per_ticket_stage: Seq<(Seq<Seq<u8>>, u32)>,
    pub next_nonce: Seq<(Seq<Seq<u8>>, u64)>,
    pub collections: Seq<(Seq<Seq<u8>>, ())>,
    pub token_manager: Seq<(Seq<Seq<u8>>, Seq<u8>)>,
    pub transfer_wallets: Seq<(Seq<Seq<u8>>, ())>,
    pub income: Seq<(Seq<Seq<u8>>, PaymentV)>,
    pub fees: u64,
    pub log: Seq<DomainEventV>,
}

impl View for Ticketing {
    type V = StateV;

    open(crate) spec fn view(&self) -> StateV {
        StateV {
            events: self.events.kvs(),
            event_by_id: self.event_by_id.kvs(),
            ticket_types: self.ticket_types.kvs(),
            ticket_type_by_id: self.ticket_type_by_id.kvs(),
            ticket_stages: self.ticket_stages.kvs(),
            whitelist_wallets: self.whitelist_wallets.kvs(),
            buys_per_event: self.buys_per_event.kvs(),
            buys_per_ticket_type: self.buys_per_ticket_type.kvs(),
            buys_per_ticket_stage: self.buys_per_ticket_stage.kvs(),
            next_nonce: self.next_nonce.kvs(),
            collections: self.collections.kvs(),
            token_manager: self.token_manager.kvs(),
            transfer_wallets: self.transfer_wallets.kvs(),
            income: self.income.kvs(),
            fees: self.fees,
            log: self.log.deep_view(),
        }
    }
}

impl StateV {
    /// Whether `id` is listed in the event id set (possibly still pending).
    pub open spec fn event_listed(self, id: Seq<u8>) -> bool {
        has_key(self.events, seq![id])
    }

    /// Whether an event record exists under `id`.
    pub open spec fn has_event(self, id: Seq<u8>) -> bool {
        has_key(self.event_by_id, seq![id])
    }

    /// The event record under `id`.
    pub open spec fn event_of(self, id: Seq<u8>) -> EventV {
        val_of(self.event_by_id, seq![id])
    }

    /// Whether `t` is listed as a ticket type of event `e`.
    pub open spec fn type_listed(self, e: Seq<u8>, t: Seq<u8>) -> bool {
        has_key(self.ticket_types, seq![e, t])
    }

    /// Whether a ticket type record exists under `(e, t)`.
    pub open spec fn has_type(self, e: Seq<u8>, t: Seq<u8>) -> bool {
        has_key(self.ticket_type_by_id, seq![e, t])
    }

    /// The ticket type record under `(e, t)`.
    pub open spec fn type_of(self, e: Seq<u8>, t: Seq<u8>) -> TicketTypeV {
        val_of(self.ticket_type_by_id, seq![e, t])
    }

    /// Whether a ticket stage record exists under `(e, t, s)`.
    pub open spec fn has_stage(self, e: Seq<u8>, t: Seq<u8>, s: Seq<u8>) -> bool {
        has_key(self.ticket_stages, seq![e, t, s])
    }

    /// The ticket stage record under `(e, t, s)`.
    pub open spec fn stage_of(self, e: Seq<u8>, t: Seq<u8>, s: Seq<u8>) -> TicketStageV {
        val_of(self.ticket_stages, seq![e, t, s])
    }

    /// Whether address `a` is whitelisted for stage `(e, t, s)`.
    pub open spec fn whitelisted(self, e: Seq<u8>, t: Seq<u8>, s: Seq<u8>, a: Seq<u8>) -> bool {
        has_key(self.whitelist_wallets, seq![e, t, s, a])
    }

    /// How many units `u` has bought in event `e`.
    pub open spec fn buys_event(self, u: Seq<u8>, e: Seq<u8>) -> u32 {
        if has_key(self.buys_per_event, seq![u, e]) {
            val_of(self.buys_per_event, seq![u, e])
        } else {
            0
        }
    }

    /// How many units `u` has bought of ticket type `(e, t)`.
    pub open spec fn buys_type(self, u: Seq<u8>, e: Seq<u8>, t: Seq<u8>) -> u32 {
        if has_key(self.buys_per_ticket_type, seq![u, e, t]) {
            val_of(self.buys_per_ticket_type, seq![u, e, t])
        } else {
            0
        }
    }

    /// How many units `u` has bought in stage `(e, t, s)`.
    pub open spec fn buys_stage(self, u: Seq<u8>, e: Seq<u8>, t: Seq<u8>, s: Seq<u8>) -> u32 {
        if has_key(self.buys_per_ticket_stage, seq![u, e, t, s]) {
            val_of(self.buys_per_ticket_stage, seq![u, e, t, s])
        } else {
            0
        }
    }

    /// The next nonce to mint in collection `token` (0 before issuance).
    pub open spec fn nonce_of(self, token: Seq<u8>) -> u64 {
        if has_key(self.next_nonce, seq![token]) {
            val_of(self.next_nonce, seq![token])
        } else {
            0
        }
    }

    /// Whether `token` is an issued collection.
    pub open spec fn has_collection(self, token: Seq<u8>) -> bool {
        has_key(self.collections, seq![token])
    }

    /// Whether event `e` has an issued token.
    pub open spec fn has_token(self, e: Seq<u8>) -> bool {
        has_key(self.token_manager, seq![e])
    }

    /// The issued token of event `e`.
    pub open spec fn token_of(self, e: Seq<u8>) -> Seq<u8> {
        val_of(self.token_manager, seq![e])
    }

    /// The ticker announced in log records for event `e`: its issued token,
    /// or empty while none is issued.
    pub open spec fn ticker_of(self, e: Seq<u8>) -> Seq<u8> {
        if self.has_token(e) {
            self.token_of(e)
        } else {
            Seq::empty()
        }
    }

    /// Whether wallet `a` holds the transfer role for event `e`.
    pub open spec fn transfer_listed(self, e: Seq<u8>, a: Seq<u8>) -> bool {
        has_key(self.transfer_wallets, seq![e, a])
    }

    /// Whether the income ledger has an entry for `token`.
    pub open spec fn has_income(self, token: Seq<u8>) -> bool {
        has_key(self.income, seq![token])
    }

    /// The accrued income entry for `token`.
    pub open spec fn income_of(self, token: Seq<u8>) -> PaymentV {
        val_of(self.income, seq![token])
    }

    /// Every store has unique keys.
    pub open spec fn inv_unique(self) -> bool {
        &&& keys_unique(self.events)
        &&& keys_unique(self.event_by_id)
        &&& keys_unique(self.ticket_types)
        &&& keys_unique(self.ticket_type_by_id)
        &&& keys_unique(self.ticket_stages)
        &&& keys_unique(self.whitelist_wallets)
        &&& keys_unique(self.buys_per_event)
        &&& keys_unique(self.buys_per_ticket_type)
        &&& keys_unique(self.buys_per_ticket_stage)
        &&& keys_unique(self.next_nonce)
        &&& keys_unique(self.collections)
        &&& keys_unique(self.token_manager)
        &&& keys_unique(self.transfer_wallets)
        &&& keys_unique(self.income)
    }

    /// No per-user counter exceeds the mint count of the event it counts
    /// toward.  Together with the capacity ceiling this bounds every counter.
    pub open spec fn inv_counters(self) -> bool {
        &&& forall|i: int|
            0 <= i < self.buys_per_event.len() ==> {
                let kv = #[trigger] self.buys_per_event[i];
                &&& kv.0.len() == 2
                &&& self.has_event(kv.0[1])
                &&& kv.1 <= self.event_of(kv.0[1]).mint_count
            }
        &&& forall|i: int|
            0 <= i < self.buys_per_ticket_type.len() ==> {
                let kv = #[trigger] self.buys_per_ticket_type[i];
                &&& kv.0.len() == 3
                &&& self.has_event(kv.0[1])
                &&& kv.1 <= self.event_of(kv.0[1]).mint_count
            }
        &&& forall|i: int|
            0 <= i < self.buys_per_ticket_stage.len() ==> {
                let kv = #[trigger] self.buys_per_ticket_stage[i];
                &&& kv.0.len() == 4
                &&& self.has_event(kv.0[1])
                &&& kv.1 <= self.event_of(kv.0[1]).mint_count
            }
    }

    /// How nonce counters, collections and event tokens hang together: every
    /// nonce counter belongs to an issued collection, every event's token is
    /// an issued collection with a nonce counter standing exactly one past
    /// the event's mint count, and no two events share a token.
    pub open spec fn inv_tokens(self) -> bool {
        &&& forall|i: int|
            0 <= i < self.next_nonce.len() ==> has_key(
                self.collections,
                (#[trigger] self.next_nonce[i]).0,
            )
        &&& forall|i: int|
            0 <= i < self.event_by_id.len() ==> {
                let ev = (#[trigger] self.event_by_id[i]).1;
                &&& self.has_collection(ev.token)
                &&& has_key(self.next_nonce, seq![ev.token])
                &&& val_of(self.next_nonce, seq![ev.token]) == ev.mint_count as u64 + 1
            }
        &&& forall|i: int, j: int|
            0 <= i < j < self.event_by_id.len() ==> (#[trigger] self.event_by_id[i]).1.token != (
            #[trigger] self.event_by_id[j]).1.token
    }

    /// The ticket type listing and the ticket type records agree.
    pub open spec fn inv_types(self) -> bool {
        &&& forall|i: int|
            0 <= i < self.ticket_types.len() ==> {
                let kv = #[trigger] self.ticket_types[i];
                &&& kv.0.len() == 2
                &&& has_key(self.ticket_type_by_id, kv.0)
            }
        &&& forall|i: int|
            0 <= i < self.ticket_type_by_id.len() ==> has_key(
                self.ticket_types,
                (#[trigger] self.ticket_type_by_id[i]).0,
            )
    }

    /// Every record carries the ids of the key it is stored under.
    pub open spec fn inv_ids(self) -> bool {
        &&& forall|i: int|
            0 <= i < self.event_by_id.len() ==> (#[trigger] self.event_by_id[i]).0 == seq![
                self.event_by_id[i].1.id,
            ]
        &&& forall|i: int|
            0 <= i < self.ticket_type_by_id.len() ==> {
                let kv = #[trigger] self.ticket_type_by_id[i];
                &&& kv.0.len() == 2
                &&& kv.0[1] == kv.1.id
            }
        &&& forall|i: int|
            0 <= i < self.ticket_stages.len() ==> {
                let kv = #[trigger] self.ticket_stages[i];
                &&& kv.0.len() == 3
                &&& kv.0[1] == kv.1.ticket_type_id
                &&& kv.0[2] == kv.1.id
            }
    }

    /// The state invariant: established by `init`, preserved by every
    /// operation.
    pub open spec fn inv(self) -> bool {
        &&& self.inv_unique()
        &&& self.inv_counters()
        &&& self.inv_tokens()
        &&& self.inv_types()
        &&& self.inv_ids()
        &&& self.fees < ROYALTIES_MAX
    }
}

/// Looked-up records carry the ids they were looked up under.
pub proof fn lemma_record_ids(s: StateV, e_id: Seq<u8>, t_id: Seq<u8>, s_id: Seq<u8>)
    requires
        s.inv(),
    ensures
        s.has_event(e_id) ==> s.event_of(e_id).id == e_id,
        s.has_type(e_id, t_id) ==> s.type_of(e_id, t_id).id == t_id,
        s.has_stage(e_id, t_id, s_id) ==> s.stage_of(e_id, t_id, s_id).id == s_id && s.stage_of(
            e_id,
            t_id,
            s_id,
        ).ticket_type_id == t_id,
{
    if s.has_event(e_id) {
        crate::storage::lemma_key_index_props(s.event_by_id, seq![e_id]);
        let i = crate::storage::key_index(s.event_by_id, seq![e_id]);
        assert(s.event_by_id[i].0 == seq![s.event_by_id[i].1.id]);
        assert(seq![s.event_by_id[i].1.id][0] == s.event_by_id[i].1.id);
        assert(seq![e_id][0] == e_id);
    }
    if s.has_type(e_id, t_id) {
        crate::storage::lemma_key_index_props(s.ticket_type_by_id, seq![e_id, t_id]);
        let i = crate::storage::key_index(s.ticket_type_by_id, seq![e_id, t_id]);
        assert(s.ticket_type_by_id[i].0[1] == s.ticket_type_by_id[i].1.id);
        assert(seq![e_id, t_id][1] == t_id);
    }
    if s.has_stage(e_id, t_id, s_id) {
        crate::storage::lemma_key_index_props(s.ticket_stages, seq![e_id, t_id, s_id]);
        let i = crate::storage::key_index(s.ticket_stages, seq![e_id, t_id, s_id]);
        assert(s.ticket_stages[i].0[1] == s.ticket_stages[i].1.ticket_type_id);
        assert(s.ticket_stages[i].0[2] == s.ticket_stages[i].1.id);
        assert(seq![e_id, t_id, s_id][1] == t_id);
        assert(seq![e_id, t_id, s_id][2] == s_id);
    }
}

impl Ticketing {
    /// A fresh engine with the given platform fee rate, as deployment
    /// configures it.
    pub fn init(fees: u64) -> (r: Result<Ticketing, crate::errors::TicketingError>)
        ensures
            match r {
                Ok(t) => {
                    &&& fees < ROYALTIES_MAX
                    &&& t@.inv()
                    &&& t@.fees == fees
                    &&& t@.events.len() == 0
                    &&& t@.event_by_id.len() == 0
                    &&& t@.ticket_types.len() == 0
                    &&& t@.ticket_type_by_id.len() == 0
                    &&& t@.ticket_stages.len() == 0
                    &&& t@.whitelist_wallets.len() == 0
                    &&& t@.buys_per_event.len() == 0
                    &&& t@.buys_per_ticket_type.len() == 0
                    &&& t@.buys_per_ticket_stage.len() == 0
                    &&& t@.next_nonce.len() == 0
                    &&& t@.collections.len() == 0
                    &&& t@.token_manager.len() == 0
                    &&& t@.transfer_wallets.len() == 0
                    &&& t@.income.len() == 0
                    &&& t@.log.len() == 0
                },
                Err(e) => e == crate::errors::TicketingError::InvalidFee && fees >= ROYALTIES_MAX,
            },
    {
        if fees >= ROYALTIES_MAX {
            return Err(crate::errors::TicketingError::InvalidFee);
        }
        let t = Ticketing {
            events: Table::new(),
            event_by_id: Table::new(),
            ticket_types: Table::new(),
            ticket_type_by_id: Table::new(),
            ticket_stages: Table::new(),
            whitelist_wallets: Table::new(),
            buys_per_event: Table::new(),
            buys_per_ticket_type: Table::new(),
            buys_per_ticket_stage: Table::new(),
            next_nonce: Table::new(),
            collections: Table::new(),
            token_manager: Table::new(),
            transfer_wallets: Table::new(),
            income: Table::new(),
            fees,
            log: Vec::new(),
        };
        proof {
            assert(t.log.deep_view() =~= Seq::<DomainEventV>::empty());
        }
        Ok(t)
    }

    /// The upgrade hook: this version migrates nothing.
    pub fn upgrade(&mut self)
        ensures
            final(self)@ == old(self)@,
    {
    }

    /// The configured platform fee rate.
    pub fn fees(&self) -> (r: u64)
        ensures
            r == self@.fees,
    {
        self.fees
    }

    /// How many domain events have been emitted.
    pub fn log_len(&self) -> (r: usize)
        ensures
            r == self@.log.len(),
    {
        self.log.len()
    }
}

/// The byte identity of the chain's native currency.
pub open spec fn spec_egld() -> Seq<u8> {
    seq![69u8, 71u8, 76u8, 68u8]
}

/// The byte identity of the chain's native currency.
pub fn egld_token() -> (r: Vec<u8>)
    ensures
        r@ == spec_egld(),
{
    let mut r: Vec<u8> = Vec::new();
    r.push(69);
    r.push(71);
    r.push(76);
    r.push(68);
    proof {
        assert(r@ =~= spec_egld());
    }
    r
}

/// What a settled purchase hands back to the host: the minted instances to
/// transfer to the buyer, their display names, any swap surplus to refund,
/// and any platform fee to transfer to the platform owner.
pub struct BuyOutcome {
    pub payments: Vec<Payment>,
    pub names: Vec<Vec<u8>>,
    pub refund: Option<Payment>,
    pub platform_fee: Option<Payment>,
}

/// The view of a `BuyOutcome`.
pub ghost struct BuyOutcomeV {
    pub payments: Seq<PaymentV>,
    pub names: Seq<Seq<u8>>,
    pub refund: Option<PaymentV>,
    pub platform_fee: Option<PaymentV>,
}

impl View for BuyOutcome {
    type V = BuyOutcomeV;

    open spec fn view(&self) -> BuyOutcomeV {
        BuyOutcomeV {
            payments: self.payments.deep_view(),
            names: self.names.deep_view(),
            refund: self.refund.deep_view(),
            platform_fee: self.platform_fee.deep_view(),
        }
    }
}

/// The whole purchase pipeline: validation, payment reconciliation, the
/// identity gate, the atomic mint with its log record, and income
/// distribution — or the first failing check's error, with no state
/// change.
pub open spec fn spec_buy_full(
    s: StateV,
    e_id: Seq<u8>,
    t_id: Seq<u8>,
    s_id: Seq<u8>,
    q: u32,
    caller: Seq<u8>,
    now: u64,
    payment: PaymentV,
    signature: Option<Seq<u8>>,
    data: Option<Seq<u8>>,
    sig_valid: bool,
    swap_output: Option<PaymentV>,
) -> Result<(StateV, BuyOutcomeV), TicketingError> {
    match spec_buy_check(s, e_id, t_id, s_id, q, caller, now) {
        Err(er) => Err(er),
        Ok(()) => {
            let e = s.event_of(e_id);
            let t = s.type_of(e_id, t_id);
            let st = s.stage_of(e_id, t_id, s_id);
            match spec_reconcile(st, q, payment, swap_output) {
                Err(er) => Err(er),
                Ok(out) => {
                    match spec_check_identity(e, t, st, caller, q, signature, data, sig_valid) {
                        Err(er) => Err(er),
                        Ok(()) => {
                            if spec_is_sc(caller) {
                                Err(TicketingError::OnlyUserAccountsAllowed)
                            } else {
                                let s1 = spec_mint_apply(s, e, t, Some(st), caller, q);
                                let s2 = StateV {
                                    log: s1.log.push(
                                        DomainEventV::Buy {
                                            buyer: caller,
                                            payment_token: out.settled.token,
                                            unit_price: out.unit_price,
                                            ticker: e.token,
                                            external_id: Seq::empty(),
                                            timestamp: now,
                                        },
                                    ),
                                    ..s1
                                };
                                let dist = spec_distribute(s2, out.settled);
                                Ok(
                                    (
                                        dist.0,
                                        BuyOutcomeV {
                                            payments: spec_minted(
                                                e.token,
                                                (e.mint_count + 1) as u64,
                                                q,
                                            ),
                                            names: spec_mint_names(
                                                t.base_name,
                                                e,
                                                (e.mint_count + 1) as u64,
                                                q,
                                            ),
                                            refund: out.refund,
                                            platform_fee: dist.1,
                                        },
                                    ),
                                )
                            }
                        },
                    }
                },
            }
        },
    }
}

/// Whether the income ledger can absorb the purchase that these arguments
/// would settle: a bound the machine's integer range forces.
pub open spec fn spec_buy_income_ok(
    s: StateV,
    e_id: Seq<u8>,
    t_id: Seq<u8>,
    s_id: Seq<u8>,
    q: u32,
    payment: PaymentV,
    swap_output: Option<PaymentV>,
) -> bool {
    s.has_stage(e_id, t_id, s_id) ==> match spec_reconcile(
        s.stage_of(e_id, t_id, s_id),
        q,
        payment,
        swap_output,
    ) {
        Ok(out) => spec_income_fits(s, out.settled),
        Err(_) => true,
    }
}

/// The whole admin-giveaway-with-signature pipeline: validation, the
/// identity gate, and the atomic mint with a zero-price purchase record.
pub open spec fn spec_giveaway_admin(
    s: StateV,
    e_id: Seq<u8>,
    t_id: Seq<u8>,
    s_id: Seq<u8>,
    to: Seq<u8>,
    q: u32,
    external_id: Seq<u8>,
    now: u64,
    signature: Option<Seq<u8>>,
    data: Option<Seq<u8>>,
    sig_valid: bool,
) -> Result<(StateV, Seq<PaymentV>, Seq<Seq<u8>>), TicketingError> {
    match spec_buy_check(s, e_id, t_id, s_id, q, to, now) {
        Err(er) => Err(er),
        Ok(()) => {
            let e = s.event_of(e_id);
            let t = s.type_of(e_id, t_id);
            let st = s.stage_of(e_id, t_id, s_id);
            match spec_check_identity(e, t, st, to, q, signature, data, sig_valid) {
                Err(er) => Err(er),
                Ok(()) => {
                    if spec_is_sc(to) {
                        Err(TicketingError::OnlyUserAccountsAllowed)
                    } else {
                        let s1 = spec_mint_apply(s, e, t, Some(st), to, q);
                        let s2 = StateV {
                            log: s1.log.push(
                                DomainEventV::Buy {
                                    buyer: to,
                                    payment_token: spec_egld(),
                                    unit_price: 0,
                                    ticker: e.token,
                                    external_id: external_id,
                                    timestamp: now,
                                },
                            ),
                            ..s1
                        };
                        Ok(
                            (
                                s2,
                                spec_minted(e.token, (e.mint_count + 1) as u64, q),
                                spec_mint_names(t.base_name, e, (e.mint_count + 1) as u64, q),
                            ),
                        )
                    }
                },
            }
        },
    }
}

/// The giveaway loop: one free mint per `(recipient, quantity)` pair, each
/// checked against the type and event capacities as they stand at its turn
/// and logged as a zero-price purchase; the first failure aborts the whole
/// giveaway.
pub open spec fn spec_giveaway_loop(
    s: StateV,
    e_id: Seq<u8>,
    t_id: Seq<u8>,
    users: Seq<(Seq<u8>, u32)>,
    now: u64,
) -> Result<(StateV, Seq<PaymentV>), TicketingError>
    decreases users.len(),
{
    if users.len() == 0 {
        Ok((s, Seq::empty()))
    } else {
        let to = users[0].0;
        let q = users[0].1;
        let e = s.event_of(e_id);
        let t = s.type_of(e_id, t_id);
        match crate::common::spec_type_sold_out_check(e, t, q) {
            Err(er) => Err(er),
            Ok(()) => {
                if spec_is_sc(to) {
                    Err(TicketingError::OnlyUserAccountsAllowed)
                } else {
                    let s1 = spec_mint_apply(s, e, t, None, to, q);
                    let s2 = StateV {
                        log: s1.log.push(
                            DomainEventV::Buy {
                                buyer: to,
                                payment_token: spec_egld(),
                                unit_price: 0,
                                ticker: e.token,
                                external_id: Seq::empty(),
                                timestamp: now,
                            },
                        ),
                        ..s1
                    };
                    match spec_giveaway_loop(s2, e_id, t_id, users.drop_first(), now) {
                        Err(er) => Err(er),
                        Ok((sf, rest)) => Ok(
                            (sf, spec_minted(e.token, (e.mint_count + 1) as u64, q) + rest),
                        ),
                    }
                }
            },
        }
    }
}

/// The whole admin giveaway: the event and type must exist, then the loop
/// runs over every recipient — or nothing happens at all.
pub open spec fn spec_giveaway(
    s: StateV,
    e_id: Seq<u8>,
    t_id: Seq<u8>,
    users: Seq<(Seq<u8>, u32)>,
    now: u64,
) -> Result<(StateV, Seq<PaymentV>), TicketingError> {
    if !s.has_event(e_id) {
        Err(TicketingError::EventNotFound)
    } else if !s.has_type(e_id, t_id) {
        Err(TicketingError::TypeNotFound)
    } else {
        spec_giveaway_loop(s, e_id, t_id, users, now)
    }
}

impl Ticketing {
    /// A purchase: the ordered validation pipeline, payment reconciliation
    /// (direct, or against the host-performed swap output), the identity
    /// gate, the atomic mint, the purchase record and income distribution.
    /// Any failure reports the first failing check and changes nothing.
    pub fn buy(
        &mut self,
        event_id: &Vec<u8>,
        ticket_type_id: &Vec<u8>,
        ticket_stage_id: &Vec<u8>,
        quantity: u32,
        caller: &Vec<u8>,
        now: u64,
        payment: &Payment,
        signature: &Option<Vec<u8>>,
        data: &Option<Vec<u8>>,
        sig_valid: bool,
        swap_output: Option<Payment>,
    ) -> (r: Result<BuyOutcome, TicketingError>)
        requires
            old(self)@.inv(),
            spec_buy_income_ok(
                old(self)@,
                event_id@,
                ticket_type_id@,
                ticket_stage_id@,
                quantity,
                payment@,
                swap_output.deep_view(),
            ),
        ensures
            match r {
                Ok(outc) => {
                    &&& spec_buy_full(
                        old(self)@,
                        event_id@,
                        ticket_type_id@,
                        ticket_stage_id@,
                        quantity,
                        caller@,
                        now,
                        payment@,
                        signature.deep_view(),
                        data.deep_view(),
                        sig_valid,
                        swap_output.deep_view(),
                    ) == Ok::<(StateV, BuyOutcomeV), TicketingError>((final(self)@, outc@))
                    &&& final(self)@.inv()
                },
                Err(er) => {
                    &&& spec_buy_full(
                        old(self)@,
                        event_id@,
                        ticket_type_id@,
                        ticket_stage_id@,
                        quantity,
                        caller@,
                        now,
                        payment@,
                        signature.deep_view(),
                        data.deep_view(),
                        sig_valid,
                        swap_output.deep_view(),
                    ) == Err::<(StateV, BuyOutcomeV), TicketingError>(er)
                    &&& final(self)@ == old(self)@
                },
            },
    {
        let ghost swap_v = swap_output.deep_view();
        let (event, ticket_type, ticket_stage) = match self.common_buy_check(
            event_id,
            ticket_type_id,
            ticket_stage_id,
            quantity,
            caller,
            now,
        ) {
            Ok(recs) => recs,
            Err(er) => {
                return Err(er);
            },
        };
        let out = match self.common_payment_check(&ticket_stage, quantity, payment, swap_output) {
            Ok(out) => out,
            Err(er) => {
                return Err(er);
            },
        };
        match self.check_kyc(
            &event,
            &ticket_type,
            &ticket_stage,
            caller,
            quantity,
            signature,
            data,
            sig_valid,
        ) {
            Ok(()) => (),
            Err(er) => {
                return Err(er);
            },
        }
        let ghost s0 = self@;
        proof {
            lemma_record_ids(s0, event_id@, ticket_type_id@, ticket_stage_id@);
        }
        let batch = match self.send_nft(
            &event,
            &ticket_type,
            Some(&ticket_stage),
            caller,
            quantity,
        ) {
            Ok(b) => b,
            Err(er) => {
                return Err(er);
            },
        };
        let external: Vec<u8> = Vec::new();
        proof {
            assert(external@ =~= Seq::<u8>::empty());
        }
        self.emit_buy(&out.settled.token, caller, out.unit_price, &event.token, &external, now);
        proof {
            assert(self@.income == s0.income);
            assert(self@.fees == s0.fees);
        }
        let platform_fee = self.distribute_income(out.settled);
        Ok(BuyOutcome { payments: batch.payments, names: batch.names, refund: out.refund, platform_fee })
    }

    /// An admin giveaway of a paid-equivalent ticket: the full validation
    /// pipeline and identity gate apply, but no payment is taken and the
    /// purchase record carries a zero price.
    pub fn giveaway_admin(
        &mut self,
        event_id: &Vec<u8>,
        ticket_type_id: &Vec<u8>,
        ticket_stage_id: &Vec<u8>,
        to: &Vec<u8>,
        quantity: u32,
        external_id: &Vec<u8>,
        now: u64,
        signature: &Option<Vec<u8>>,
        data: &Option<Vec<u8>>,
        sig_valid: bool,
    ) -> (r: Result<MintBatch, TicketingError>)
        requires
            old(self)@.inv(),
        ensures
            match r {
                Ok(batch) => {
                    &&& spec_giveaway_admin(
                        old(self)@,
                        event_id@,
                        ticket_type_id@,
                        ticket_stage_id@,
                        to@,
                        quantity,
                        external_id@,
                        now,
                        signature.deep_view(),
                        data.deep_view(),
                        sig_valid,
                    ) == Ok::<(StateV, Seq<PaymentV>, Seq<Seq<u8>>), TicketingError>(
                        (final(self)@, batch.payments.deep_view(), batch.names.deep_view()),
                    )
                    &&& final(self)@.inv()
                },
                Err(er) => {
                    &&& spec_giveaway_admin(
                        old(self)@,
                        event_id@,
                        ticket_type_id@,
                        ticket_stage_id@,
                        to@,
                        quantity,
                        external_id@,
                        now,
                        signature.deep_view(),
                        data.deep_view(),
                        sig_valid,
                    ) == Err::<(StateV, Seq<PaymentV>, Seq<Seq<u8>>), TicketingError>(er)
                    &&& final(self)@ == old(self)@
                },
            },
    {
        let (event, ticket_type, ticket_stage) = match self.common_buy_check(
            event_id,
            ticket_type_id,
            ticket_stage_id,
            quantity,
            to,
            now,
        ) {
            Ok(recs) => recs,
            Err(er) => {
                return Err(er);
            },
        };
        match self.check_kyc(
            &event,
            &ticket_type,
            &ticket_stage,
            to,
            quantity,
            signature,
            data,
            sig_valid,
        ) {
            Ok(()) => (),
            Err(er) => {
                return Err(er);
            },
        }
        proof {
            lemma_record_ids(self@, event_id@, ticket_type_id@, ticket_stage_id@);
        }
        let batch = match self.send_nft(&event, &ticket_type, Some(&ticket_stage), to, quantity) {
            Ok(b) => b,
            Err(er) => {
                return Err(er);
            },
        };
        let egld = egld_token();
        self.emit_buy(&egld, to, 0, &event.token, external_id, now);
        Ok(batch)
    }

    /// A free admin giveaway: no stage context, no payment and no identity
    /// gate; each recipient is checked against the type and event
    /// capacities in turn, and either every mint happens or nothing does.
    #[verifier::rlimit(100)]
    pub fn giveaway(
        &mut self,
        event_id: &Vec<u8>,
        ticket_type_id: &Vec<u8>,
        users: &Vec<(Vec<u8>, u32)>,
        now: u64,
    ) -> (r: Result<Vec<Payment>, TicketingError>)
        requires
            old(self)@.inv(),
        ensures
            match r {
                Ok(payments) => {
                    &&& spec_giveaway(
                        old(self)@,
                        event_id@,
                        ticket_type_id@,
                        users.deep_view(),
                        now,
                    ) == Ok::<(StateV, Seq<PaymentV>), TicketingError>(
                        (final(self)@, payments.deep_view()),
                    )
                    &&& final(self)@.inv()
                },
                Err(er) => {
                    &&& spec_giveaway(
                        old(self)@,
                        event_id@,
                        ticket_type_id@,
                        users.deep_view(),
                        now,
                    ) == Err::<(StateV, Seq<PaymentV>), TicketingError>(er)
                    &&& final(self)@ == old(self)@
                },
            },
    {
        let ghost s0 = self@;
        let ghost uv = users.deep_view();
        proof {
            assert forall|k: int|
                0 <= k < users@.len() implies uv[k] == (users@[k].0@, users@[k].1) by {
                assert(uv[k] == users@[k].deep_view());
                assert(users@[k].0.deep_view() =~= users@[k].0@);
            }
            lemma_record_ids(s0, event_id@, ticket_type_id@, ticket_type_id@);
        }
        let event0 = match self.does_event_exists(event_id) {
            Ok(e) => e,
            Err(er) => {
                return Err(er);
            },
        };
        let ticket_type0 = match self.does_ticket_type_exists(event_id, ticket_type_id) {
            Ok(t) => t,
            Err(er) => {
                return Err(er);
            },
        };
        let mut ev_count: u32 = event0.mint_count;
        let mut ty_count: u32 = ticket_type0.mint_count;
        let ghost mut sim = self@;
        let ghost mut acc: Seq<PaymentV> = Seq::empty();
        proof {
            assert(uv.skip(0) =~= uv);
            assert forall|ps: Seq<PaymentV>| #[trigger] (acc + ps) == ps by {
                assert(acc + ps =~= ps);
            }
        }
        let n = users.len();
        for i in 0..n
            invariant
                n == users@.len(),
                uv == users.deep_view(),
                uv.len() == users@.len(),
                forall|k: int| 0 <= k < users@.len() ==> uv[k] == (users@[k].0@, users@[k].1),
                event0@.id == event_id@,
                ticket_type0@.id == ticket_type_id@,
                s0 == old(self)@,
                self@ == s0,
                s0.has_event(event_id@),
                s0.has_type(event_id@, ticket_type_id@),
                keys_unique(sim.event_by_id),
                keys_unique(sim.ticket_type_by_id),
                sim.has_event(event_id@),
                sim.event_of(event_id@) == (EventV { mint_count: ev_count, ..event0@ }),
                sim.has_type(event_id@, ticket_type_id@),
                sim.type_of(event_id@, ticket_type_id@) == (TicketTypeV {
                    mint_count: ty_count,
                    ..ticket_type0@
                }),
                spec_giveaway_loop(s0, event_id@, ticket_type_id@, uv, now) == (match spec_giveaway_loop(
                    sim,
                    event_id@,
                    ticket_type_id@,
                    uv.skip(i as int),
                    now,
                ) {
                    Ok((sf, ps)) => Ok::<(StateV, Seq<PaymentV>), TicketingError>((sf, acc + ps)),
                    Err(er) => Err::<(StateV, Seq<PaymentV>), TicketingError>(er),
                }),
        {
            let to_is_sc = crate::common::is_smart_contract(&users[i].0);
            let q = users[i].1;
            let ghost e_cur = sim.event_of(event_id@);
            let ghost t_cur = sim.type_of(event_id@, ticket_type_id@);
            proof {
                assert(uv.skip(i as int)[0] == uv[i as int]);
                assert(uv.skip(i as int).drop_first() =~= uv.skip(i as int + 1));
            }
            if ty_count as u64 + q as u64 > ticket_type0.mint_limit as u64 {
                proof {
                    assert(spec_giveaway_loop(sim, event_id@, ticket_type_id@, uv.skip(i as int), now)
                        == Err::<(StateV, Seq<PaymentV>), TicketingError>(
                        TicketingError::SoldOut(crate::errors::Tier::Type),
                    ));
                }
                return Err(TicketingError::SoldOut(crate::errors::Tier::Type));
            }
            if ev_count as u64 + q as u64 > event0.max_capacity as u64 {
                proof {
                    assert(spec_giveaway_loop(sim, event_id@, ticket_type_id@, uv.skip(i as int), now)
                        == Err::<(StateV, Seq<PaymentV>), TicketingError>(
                        TicketingError::SoldOut(crate::errors::Tier::Event),
                    ));
                }
                return Err(TicketingError::SoldOut(crate::errors::Tier::Event));
            }
            if to_is_sc {
                proof {
                    assert(spec_is_sc(uv[i as int].0));
                    assert(spec_giveaway_loop(sim, event_id@, ticket_type_id@, uv.skip(i as int), now)
                        == Err::<(StateV, Seq<PaymentV>), TicketingError>(
                        TicketingError::OnlyUserAccountsAllowed,
                    ));
                }
                return Err(TicketingError::OnlyUserAccountsAllowed);
            }
            proof {
                let new_ev = EventV { mint_count: (e_cur.mint_count + q) as u32, ..e_cur };
                let new_ty = TicketTypeV { mint_count: (t_cur.mint_count + q) as u32, ..t_cur };
                lemma_upsert(sim.event_by_id, seq![e_cur.id], new_ev);
                lemma_upsert(sim.ticket_type_by_id, seq![e_cur.id, t_cur.id], new_ty);
                let s1 = spec_mint_apply(sim, e_cur, t_cur, None, uv[i as int].0, q);
                let s2 = StateV {
                    log: s1.log.push(
                        DomainEventV::Buy {
                            buyer: uv[i as int].0,
                            payment_token: spec_egld(),
                            unit_price: 0,
                            ticker: e_cur.token,
                            external_id: Seq::empty(),
                            timestamp: now,
                        },
                    ),
                    ..s1
                };
                let minted_i = spec_minted(e_cur.token, (e_cur.mint_count + 1) as u64, q);
                assert forall|ps: Seq<PaymentV>| #[trigger] ((acc + minted_i) + ps) == acc + (
                minted_i + ps) by {
                    assert((acc + minted_i) + ps =~= acc + (minted_i + ps));
                }
                acc = acc + minted_i;
                sim = s2;
            }
            ev_count = ev_count + q;
            ty_count = ty_count + q;
        }
        let ghost target = spec_giveaway_loop(s0, event_id@, ticket_type_id@, uv, now);
        proof {
            assert(uv.skip(users@.len() as int) =~= Seq::<(Seq<u8>, u32)>::empty());
            assert(acc + Seq::<PaymentV>::empty() =~= acc);
            assert(target == Ok::<(StateV, Seq<PaymentV>), TicketingError>((sim, acc)));
        }
        let mut all_payments: Vec<Payment> = Vec::new();
        proof {
            assert(all_payments.deep_view() =~= Seq::<PaymentV>::empty());
            assert forall|ps: Seq<PaymentV>| #[trigger] (all_payments.deep_view() + ps) == ps by {
                assert(all_payments.deep_view() + ps =~= ps);
            }
        }
        for i in 0..n
            invariant
                n == users@.len(),
                uv == users.deep_view(),
                uv.len() == users@.len(),
                forall|k: int| 0 <= k < users@.len() ==> uv[k] == (users@[k].0@, users@[k].1),
                self@.inv(),
                s0.has_event(event_id@),
                s0.has_type(event_id@, ticket_type_id@),
                self@.has_event(event_id@),
                self@.has_type(event_id@, ticket_type_id@),
                target == spec_giveaway_loop(s0, event_id@, ticket_type_id@, uv, now),
                (match spec_giveaway_loop(self@, event_id@, ticket_type_id@, uv.skip(i as int), now) {
                    Ok((sf, ps)) => target == Ok::<(StateV, Seq<PaymentV>), TicketingError>(
                        (sf, all_payments.deep_view() + ps),
                    ),
                    Err(er) => false,
                }),
        {
            let event = match self.does_event_exists(event_id) {
                Ok(e) => e,
                Err(_) => {
                    // the event existed before the loop and mints keep it
                    proof {
                        assert(false);
                    }
                    return Err(TicketingError::EventNotFound);
                },
            };
            let ticket_type = match self.does_ticket_type_exists(event_id, ticket_type_id) {
                Ok(t) => t,
                Err(_) => {
                    // the type existed before the loop and mints keep it
                    proof {
                        assert(false);
                    }
                    return Err(TicketingError::TypeNotFound);
                },
            };
            let q = users[i].1;
            proof {
                assert(uv.skip(i as int)[0] == uv[i as int]);
                assert(uv.skip(i as int).drop_first() =~= uv.skip(i as int + 1));
                lemma_record_ids(self@, event_id@, ticket_type_id@, ticket_type_id@);
                assert(crate::common::spec_type_sold_out_check(event@, ticket_type@, q) == Ok::<
                    (),
                    TicketingError,
                >(()));
                assert(!spec_is_sc(uv[i as int].0));
            }
            let ghost pre_state = self@;
            let batch = match self.send_nft(&event, &ticket_type, None, &users[i].0, q) {
                Ok(b) => b,
                Err(_) => {
                    // the first pass already rejected contract recipients
                    proof {
                        assert(false);
                    }
                    return Err(TicketingError::OnlyUserAccountsAllowed);
                },
            };
            let egld = egld_token();
            let external: Vec<u8> = Vec::new();
            proof {
                assert(external@ =~= Seq::<u8>::empty());
            }
            self.emit_buy(&egld, &users[i].0, 0, &event.token, &external, now);
            let ghost acc_pre = all_payments.deep_view();
            let ghost minted_i = batch.payments.deep_view();
            let m = batch.payments.len();
            proof {
                assert(acc_pre + minted_i.subrange(0, 0) =~= acc_pre);
            }
            for j in 0..m
                invariant
                    m == batch.payments@.len(),
                    batch.payments.deep_view() == minted_i,
                    minted_i.len() == batch.payments@.len(),
                    all_payments.deep_view() == acc_pre + minted_i.subrange(0, j as int),
            {
                let ghost pv = all_payments;
                let p = crate::structs::clone_payment(&batch.payments[j]);
                all_payments.push(p);
                proof {
                    crate::storage::lemma_deep_view_push(pv, all_payments, p);
                    assert(minted_i[j as int] == batch.payments@[j as int].deep_view());
                    assert((acc_pre + minted_i.subrange(0, j as int)).push(minted_i[j as int])
                        =~= acc_pre + minted_i.subrange(0, j as int + 1));
                }
            }
            proof {
                assert(minted_i.subrange(0, minted_i.len() as int) =~= minted_i);
                assert(all_payments.deep_view() == acc_pre + minted_i);
                assert forall|ps: Seq<PaymentV>| #[trigger] ((acc_pre + minted_i) + ps) == acc_pre
                    + (minted_i + ps) by {
                    assert((acc_pre + minted_i) + ps =~= acc_pre + (minted_i + ps));
                }
                lemma_upsert(
                    pre_state.event_by_id,
                    seq![event@.id],
                    (EventV { mint_count: (event@.mint_count + q) as u32, ..event@ }),
                );
                lemma_upsert(
                    pre_state.ticket_type_by_id,
                    seq![event@.id, ticket_type@.id],
                    (TicketTypeV { mint_count: (ticket_type@.mint_count + q) as u32, ..ticket_type@ }),
                );
                lemma_record_ids(pre_state, event_id@, ticket_type_id@, ticket_type_id@);
            }
        }
        proof {
            assert(uv.skip(users@.len() as int) =~= Seq::<(Seq<u8>, u32)>::empty());
            assert(all_payments.deep_view() + Seq::<PaymentV>::empty() =~= all_payments.deep_view());
        }
        Ok(all_payments)
    }
}

} // verus!
