//! Admin lifecycle: creating, editing and removing events, ticket types and
//! stages, and whitelist maintenance.
//!
//! Event creation is two-phase: the id is reserved at once, the host issues
//! the collection token asynchronously, and `issue_callback` either creates
//! the event record or rolls the reservation back and refunds the issuance
//! payment.

use vstd::prelude::*;

use crate::bytes::clone_bytes;
use crate::errors::TicketingError;
use crate::events::DomainEventV;
use crate::storage::has_key;
use crate::storage::kv_clear2;
use crate::storage::kv_remove;
use crate::storage::kv_upsert;
use crate::storage::k1;
use crate::storage::k2;
use crate::storage::k3;
use crate::storage::k4;
use crate::storage::lemma_key_index_props;
use crate::storage::lemma_key_view;
use crate::storage::lemma_kv_clear2_props;
use crate::storage::lemma_kv_remove;
use crate::storage::lemma_upsert;
use crate::storage::val_of;
use crate::structs::Event;
use crate::structs::EventArgs;
use crate::structs::Payment;
use crate::structs::PaymentV;
use crate::structs::TicketStage;
use crate::structs::TicketType;
use crate::structs::TicketTypeArgs;
use crate::structs::TicketStageArgs;
use crate::structs::clone_payments;
use crate::structs::spec_event_record;
use crate::structs::spec_event_edited;
use crate::structs::spec_stage_record;
use crate::structs::spec_stage_edited;
use crate::structs::spec_type_record;
use crate::structs::spec_type_edited;
use crate::ticketing::NFT_ISSUE_COST;
use crate::ticketing::StateV;
use crate::ticketing::Ticketing;
use crate::ticketing::egld_token;
use crate::ticketing::lemma_record_ids;
use crate::ticketing::spec_egld;

verus! {

/// Reserving an event id: the exact issue cost must be attached and the id
/// must be fresh; the id is then listed while the host issues the token.
pub open spec fn spec_create_event(s: StateV, event_id: Seq<u8>, payment_amount: u128) -> Result<
    StateV,
    TicketingError,
> {
    if payment_amount != NFT_ISSUE_COST {
        Err(TicketingError::InvalidIssuePayment)
    } else if s.event_listed(event_id) {
        Err(TicketingError::EventIdInUse)
    } else {
        Ok(StateV { events: kv_upsert(s.events, seq![event_id], ()), ..s })
    }
}

/// The issuance confirmation.  On success (for a real, non-native token)
/// the collection, its nonce counter, the event's token and the event
/// record are all created together; on failure the reserved id is released
/// and the attached issuance payment refunded in full.
pub open spec fn spec_issue_callback(
    s: StateV,
    event_id: Seq<u8>,
    args: EventArgs,
    result: Result<Seq<u8>, ()>,
    refund_amount: u128,
) -> (StateV, Option<PaymentV>) {
    match result {
        Ok(token) => {
            if token == spec_egld() {
                (s, None)
            } else {
                (
                    StateV {
                        next_nonce: kv_upsert(s.next_nonce, seq![token], 1u64),
                        collections: kv_upsert(s.collections, seq![token], ()),
                        token_manager: kv_upsert(s.token_manager, seq![event_id], token),
                        event_by_id: kv_upsert(
                            s.event_by_id,
                            seq![event_id],
                            spec_event_record(event_id, token, s.fees, args),
                        ),
                        log: s.log.push(
                            DomainEventV::EventUpserted { event_id: event_id, token: token },
                        ),
                        ..s
                    },
                    None,
                )
            }
        },
        Err(()) => (
            StateV { events: kv_remove(s.events, seq![event_id]), ..s },
            if refund_amount > 0 {
                Some(PaymentV { token: spec_egld(), nonce: 0, amount: refund_amount })
            } else {
                None
            },
        ),
    }
}

/// Creating a ticket type under an existing event with a fresh type id.
pub open spec fn spec_create_ticket_type(
    s: StateV,
    event_id: Seq<u8>,
    args: crate::structs::TicketTypeArgsV,
) -> Result<StateV, TicketingError> {
    if !s.has_event(event_id) {
        Err(TicketingError::EventNotFound)
    } else if s.type_listed(event_id, args.id) {
        Err(TicketingError::TypeIdInUse)
    } else {
        Ok(
            StateV {
                ticket_types: kv_upsert(s.ticket_types, seq![event_id, args.id], ()),
                ticket_type_by_id: kv_upsert(
                    s.ticket_type_by_id,
                    seq![event_id, args.id],
                    spec_type_record(args),
                ),
                log: s.log.push(
                    DomainEventV::TicketTypeUpserted {
                        event_id: event_id,
                        type_id: args.id,
                        ticker: s.ticker_of(event_id),
                    },
                ),
                ..s
            },
        )
    }
}

/// Creating a ticket stage under an existing event and type with a fresh
/// stage id.
pub open spec fn spec_create_ticket_stage(
    s: StateV,
    event_id: Seq<u8>,
    ticket_type_id: Seq<u8>,
    args: crate::structs::TicketStageArgsV,
) -> Result<StateV, TicketingError> {
    if !s.has_event(event_id) {
        Err(TicketingError::EventNotFound)
    } else if !s.has_type(event_id, ticket_type_id) {
        Err(TicketingError::TypeNotFound)
    } else if s.has_stage(event_id, ticket_type_id, args.id) {
        Err(TicketingError::StageIdInUse)
    } else {
        Ok(
            StateV {
                ticket_stages: kv_upsert(
                    s.ticket_stages,
                    seq![event_id, ticket_type_id, args.id],
                    spec_stage_record(args, ticket_type_id),
                ),
                log: s.log.push(
                    DomainEventV::TicketStageUpserted {
                        event_id: event_id,
                        stage_id: args.id,
                        ticker: s.ticker_of(event_id),
                    },
                ),
                ..s
            },
        )
    }
}

/// Removing a ticket type: its record, its listing and all of its stages go
/// together.
pub open spec fn spec_remove_ticket_type(
    s: StateV,
    event_id: Seq<u8>,
    ticket_type_id: Seq<u8>,
) -> Result<StateV, TicketingError> {
    if !s.has_event(event_id) {
        Err(TicketingError::EventNotFound)
    } else if !s.has_type(event_id, ticket_type_id) {
        Err(TicketingError::TypeNotFound)
    } else {
        Ok(
            StateV {
                ticket_stages: kv_clear2(s.ticket_stages, event_id, ticket_type_id),
                ticket_types: kv_remove(s.ticket_types, seq![event_id, ticket_type_id]),
                ticket_type_by_id: kv_remove(s.ticket_type_by_id, seq![event_id, ticket_type_id]),
                log: s.log.push(
                    DomainEventV::TicketTypeRemoved {
                        event_id: event_id,
                        type_id: ticket_type_id,
                        ticker: s.ticker_of(event_id),
                    },
                ),
                ..s
            },
        )
    }
}

/// Removing a single ticket stage; removing an absent stage is a no-op.
pub open spec fn spec_remove_ticket_stage(
    s: StateV,
    event_id: Seq<u8>,
    ticket_type_id: Seq<u8>,
    ticket_stage_id: Seq<u8>,
) -> Result<StateV, TicketingError> {
    if !s.has_event(event_id) {
        Err(TicketingError::EventNotFound)
    } else if !s.has_type(event_id, ticket_type_id) {
        Err(TicketingError::TypeNotFound)
    } else if s.has_stage(event_id, ticket_type_id, ticket_stage_id) {
        Ok(
            StateV {
                ticket_stages: kv_remove(
                    s.ticket_stages,
                    seq![event_id, ticket_type_id, ticket_stage_id],
                ),
                log: s.log.push(
                    DomainEventV::TicketStageRemoved {
                        event_id: event_id,
                        stage_id: ticket_stage_id,
                        ticker: s.ticker_of(event_id),
                    },
                ),
                ..s
            },
        )
    } else {
        Ok(s)
    }
}

/// Editing a ticket type: metadata and limits replaced, identity and mint
/// count kept.
pub open spec fn spec_edit_ticket_type(
    s: StateV,
    event_id: Seq<u8>,
    args: crate::structs::TicketTypeArgsV,
) -> Result<StateV, TicketingError> {
    if !s.has_event(event_id) {
        Err(TicketingError::EventNotFound)
    } else if !s.has_type(event_id, args.id) {
        Err(TicketingError::TypeNotFound)
    } else {
        let new_rec = spec_type_edited(s.type_of(event_id, args.id), args);
        Ok(
            StateV {
                ticket_type_by_id: kv_upsert(
                    s.ticket_type_by_id,
                    seq![event_id, args.id],
                    new_rec,
                ),
                log: s.log.push(
                    DomainEventV::TicketTypeUpserted {
                        event_id: event_id,
                        type_id: args.id,
                        ticker: s.ticker_of(event_id),
                    },
                ),
                ..s
            },
        )
    }
}

/// Editing a ticket stage: every caller-supplied field replaced, identity
/// and mint count kept; editing an absent stage is a no-op.
pub open spec fn spec_edit_ticket_stage(
    s: StateV,
    event_id: Seq<u8>,
    ticket_type_id: Seq<u8>,
    args: crate::structs::TicketStageArgsV,
) -> Result<StateV, TicketingError> {
    if !s.has_event(event_id) {
        Err(TicketingError::EventNotFound)
    } else if !s.has_type(event_id, ticket_type_id) {
        Err(TicketingError::TypeNotFound)
    } else if s.has_stage(event_id, ticket_type_id, args.id) {
        let new_rec = spec_stage_edited(s.stage_of(event_id, ticket_type_id, args.id), args);
        Ok(
            StateV {
                ticket_stages: kv_upsert(
                    s.ticket_stages,
                    seq![event_id, ticket_type_id, args.id],
                    new_rec,
                ),
                log: s.log.push(
                    DomainEventV::TicketStageUpserted {
                        event_id: event_id,
                        stage_id: args.id,
                        ticker: s.ticker_of(event_id),
                    },
                ),
                ..s
            },
        )
    } else {
        Ok(s)
    }
}

/// Editing an event: caller-supplied flags and caps replaced; identity,
/// token, fee snapshot and mint count kept.
pub open spec fn spec_edit_event(s: StateV, event_id: Seq<u8>, args: EventArgs) -> Result<
    StateV,
    TicketingError,
> {
    if !s.has_event(event_id) {
        Err(TicketingError::EventNotFound)
    } else {
        let new_rec = spec_event_edited(s.event_of(event_id), args);
        Ok(
            StateV {
                event_by_id: kv_upsert(s.event_by_id, seq![event_id], new_rec),
                log: s.log.push(
                    DomainEventV::EventUpserted { event_id: event_id, token: new_rec.token },
                ),
                ..s
            },
        )
    }
}

/// The whitelist after adding each of `wallets` in turn.
pub open spec fn spec_wl_add(
    wl: Seq<(Seq<Seq<u8>>, ())>,
    e: Seq<u8>,
    t: Seq<u8>,
    st: Seq<u8>,
    wallets: Seq<Seq<u8>>,
) -> Seq<(Seq<Seq<u8>>, ())>
    decreases wallets.len(),
{
    if wallets.len() == 0 {
        wl
    } else {
        spec_wl_add(kv_upsert(wl, seq![e, t, st, wallets[0]], ()), e, t, st, wallets.drop_first())
    }
}

/// The whitelist after removing each of `wallets` in turn.
pub open spec fn spec_wl_remove(
    wl: Seq<(Seq<Seq<u8>>, ())>,
    e: Seq<u8>,
    t: Seq<u8>,
    st: Seq<u8>,
    wallets: Seq<Seq<u8>>,
) -> Seq<(Seq<Seq<u8>>, ())>
    decreases wallets.len(),
{
    if wallets.len() == 0 {
        wl
    } else {
        spec_wl_remove(kv_remove(wl, seq![e, t, st, wallets[0]]), e, t, st, wallets.drop_first())
    }
}

/// What adding a wallet list does to whitelist membership.
pub proof fn lemma_wl_add(
    wl: Seq<(Seq<Seq<u8>>, ())>,
    e: Seq<u8>,
    t: Seq<u8>,
    st: Seq<u8>,
    wallets: Seq<Seq<u8>>,
)
    requires
        crate::storage::keys_unique(wl),
    ensures
        crate::storage::keys_unique(spec_wl_add(wl, e, t, st, wallets)),
        forall|k2: Seq<Seq<u8>>|
            has_key(spec_wl_add(wl, e, t, st, wallets), k2) == (has_key(wl, k2) || exists|i: int|
                0 <= i < wallets.len() && k2 == seq![e, t, st, wallets[i]]),
    decreases wallets.len(),
{
    if wallets.len() == 0 {
    } else {
        let k = seq![e, t, st, wallets[0]];
        lemma_upsert(wl, k, ());
        lemma_wl_add(kv_upsert(wl, k, ()), e, t, st, wallets.drop_first());
        let res = spec_wl_add(wl, e, t, st, wallets);
        assert forall|k2: Seq<Seq<u8>>|
            has_key(res, k2) == (has_key(wl, k2) || exists|i: int|
                0 <= i < wallets.len() && k2 == seq![e, t, st, wallets[i]]) by {
            if has_key(res, k2) {
                if !has_key(wl, k2) {
                    if k2 == k {
                        assert(k2 == seq![e, t, st, wallets[0]]);
                    } else {
                        let i = choose|i: int|
                            0 <= i < wallets.drop_first().len() && k2 == seq![
                                e,
                                t,
                                st,
                                wallets.drop_first()[i],
                            ];
                        assert(wallets.drop_first()[i] == wallets[i + 1]);
                        assert(k2 == seq![e, t, st, wallets[i + 1]]);
                    }
                }
            } else {
                assert(!has_key(kv_upsert(wl, k, ()), k2));
                assert(k2 != k);
                if exists|i: int| 0 <= i < wallets.len() && k2 == seq![e, t, st, wallets[i]] {
                    let i = choose|i: int|
                        0 <= i < wallets.len() && k2 == seq![e, t, st, wallets[i]];
                    assert(i != 0);
                    assert(wallets.drop_first()[i - 1] == wallets[i]);
                    assert(has_key(res, k2));
                }
            }
        }
    }
}

/// What removing a wallet list does to whitelist membership.
pub proof fn lemma_wl_remove(
    wl: Seq<(Seq<Seq<u8>>, ())>,
    e: Seq<u8>,
    t: Seq<u8>,
    st: Seq<u8>,
    wallets: Seq<Seq<u8>>,
)
    requires
        crate::storage::keys_unique(wl),
    ensures
        crate::storage::keys_unique(spec_wl_remove(wl, e, t, st, wallets)),
        forall|k2: Seq<Seq<u8>>|
            has_key(spec_wl_remove(wl, e, t, st, wallets), k2) == (has_key(wl, k2) && !exists|
            i: int|
                0 <= i < wallets.len() && k2 == seq![e, t, st, wallets[i]]),
    decreases wallets.len(),
{
    if wallets.len() == 0 {
    } else {
        let k = seq![e, t, st, wallets[0]];
        lemma_kv_remove(wl, k);
        lemma_wl_remove(kv_remove(wl, k), e, t, st, wallets.drop_first());
        let res = spec_wl_remove(wl, e, t, st, wallets);
        assert forall|k2: Seq<Seq<u8>>|
            has_key(res, k2) == (has_key(wl, k2) && !exists|i: int|
                0 <= i < wallets.len() && k2 == seq![e, t, st, wallets[i]]) by {
            if has_key(res, k2) {
                assert(has_key(kv_remove(wl, k), k2));
                assert(k2 != k);
                if exists|i: int| 0 <= i < wallets.len() && k2 == seq![e, t, st, wallets[i]] {
                    let i = choose|i: int|
                        0 <= i < wallets.len() && k2 == seq![e, t, st, wallets[i]];
                    assert(i != 0);
                    assert(wallets.drop_first()[i - 1] == wallets[i]);
                    assert(!has_key(res, k2));
                }
            } else {
                if has_key(wl, k2) && !exists|i: int|
                    0 <= i < wallets.len() && k2 == seq![e, t, st, wallets[i]] {
                    assert(k2 != seq![e, t, st, wallets[0]]);
                    assert(has_key(kv_remove(wl, k), k2));
                    assert forall|i: int|
                        0 <= i < wallets.drop_first().len() implies k2 != seq![
                        e,
                        t,
                        st,
                        wallets.drop_first()[i],
                    ] by {
                        assert(wallets.drop_first()[i] == wallets[i + 1]);
                    }
                    assert(has_key(res, k2));
                }
            }
        }
    }
}

/// What `create_event` hands back for the host to perform: the token
/// issuance call, with the attached cost and the arguments and caller that
/// ride along to `issue_callback`.
pub struct IssueRequest {
    pub token_name: Vec<u8>,
    pub token_ticker: Vec<u8>,
    pub cost: u128,
    pub args: EventArgs,
}

/// The abstraction of a host issuance result.
pub open spec fn spec_result_bytes(r: Result<Vec<u8>, ()>) -> Result<Seq<u8>, ()> {
    match r {
        Ok(v) => Ok(v@),
        Err(()) => Err(()),
    }
}

impl Ticketing {
    /// Reserves a fresh event id against the exact issue cost and hands the
    /// host the token-issuance request; `issue_callback` completes or rolls
    /// back the reservation.
    pub fn create_event(
        &mut self,
        event_id: &Vec<u8>,
        token_name: Vec<u8>,
        token_ticker: Vec<u8>,
        args: EventArgs,
        payment_amount: u128,
    ) -> (r: Result<IssueRequest, TicketingError>)
        requires
            old(self)@.inv(),
        ensures
            match r {
                Ok(req) => {
                    &&& spec_create_event(old(self)@, event_id@, payment_amount) == Ok::<
                        StateV,
                        TicketingError,
                    >(final(self)@)
                    &&& final(self)@.inv()
                    &&& req.token_name@ == token_name@
                    &&& req.token_ticker@ == token_ticker@
                    &&& req.cost == payment_amount
                    &&& req.args == args
                },
                Err(er) => {
                    &&& spec_create_event(old(self)@, event_id@, payment_amount) == Err::<
                        StateV,
                        TicketingError,
                    >(er)
                    &&& final(self)@ == old(self)@
                },
            },
    {
        if payment_amount != NFT_ISSUE_COST {
            return Err(TicketingError::InvalidIssuePayment);
        }
        let key = k1(event_id);
        if self.events.contains(&key) {
            return Err(TicketingError::EventIdInUse);
        }
        let ghost pre = self@;
        self.events.upsert(key, ());
        proof {
            lemma_upsert(pre.events, seq![event_id@], ());
            assert(self@.inv_counters());
            assert(self@.inv_tokens());
            assert(self@.inv_types());
            assert(self@.inv_ids());
        }
        Ok(IssueRequest { token_name, token_ticker, cost: payment_amount, args })
    }

    /// Completes a pending issuance.  On success the host's fresh token id
    /// founds the collection, its nonce counter and the event record; on
    /// failure the reservation is released and the attached issuance
    /// payment refunded to the caller in full.
    pub fn issue_callback(
        &mut self,
        event_id: &Vec<u8>,
        args: EventArgs,
        result: Result<Vec<u8>, ()>,
        refund_amount: u128,
    ) -> (r: Option<Payment>)
        requires
            old(self)@.inv(),
            match result {
                Ok(token) => !old(self)@.has_collection(token@) && !old(self)@.has_event(
                    event_id@,
                ),
                Err(()) => true,
            },
        ensures
            final(self)@.inv(),
            final(self)@ == spec_issue_callback(
                old(self)@,
                event_id@,
                args,
                spec_result_bytes(result),
                refund_amount,
            ).0,
            r.deep_view() == spec_issue_callback(
                old(self)@,
                event_id@,
                args,
                spec_result_bytes(result),
                refund_amount,
            ).1,
    {
        match result {
            Ok(token) => {
                let egld = egld_token();
                if crate::bytes::bytes_eq(&token, &egld) {
                    return None;
                }
                let ghost pre = self@;
                let ghost tokv = token@;
                let nonce_key = k1(&token);
                self.next_nonce.upsert(nonce_key, 1);
                let coll_key = k1(&token);
                self.collections.upsert(coll_key, ());
                let tm_key = k1(event_id);
                self.token_manager.upsert(tm_key, clone_bytes(&token));
                let record = Event {
                    token: clone_bytes(&token),
                    transfer_role: false,
                    id: clone_bytes(event_id),
                    max_capacity: args.max_capacity,
                    max_per_user: args.max_per_user,
                    fees: self.fees,
                    mint_count: 0,
                    has_kyc: args.has_kyc,
                    refund_policy: args.refund_policy,
                    append_number: args.append_number,
                    bot_protection: args.bot_protection,
                };
                let ghost recv = record@;
                self.emit_event(&record);
                let ev_key = k1(event_id);
                self.event_by_id.upsert(ev_key, record);
                proof {
                    let fin = self@;
                    lemma_upsert(pre.next_nonce, seq![tokv], 1u64);
                    lemma_upsert(pre.collections, seq![tokv], ());
                    lemma_upsert(pre.token_manager, seq![event_id@], tokv);
                    lemma_upsert(pre.event_by_id, seq![event_id@], recv);
                    assert(fin.inv_unique());
                    // counters: no counter can reference the fresh event id
                    assert forall|i: int| 0 <= i < fin.buys_per_event.len() implies {
                        let kv = #[trigger] fin.buys_per_event[i];
                        &&& kv.0.len() == 2
                        &&& fin.has_event(kv.0[1])
                        &&& kv.1 <= fin.event_of(kv.0[1]).mint_count
                    } by {
                        let kv = fin.buys_per_event[i];
                        assert(pre.buys_per_event[i] == kv);
                        assert(kv.0[1] != event_id@);
                        assert(seq![kv.0[1]][0] == kv.0[1]);
                        assert(seq![event_id@][0] == event_id@);
                        assert(seq![kv.0[1]] != seq![event_id@]);
                    }
                    assert forall|i: int| 0 <= i < fin.buys_per_ticket_type.len() implies {
                        let kv = #[trigger] fin.buys_per_ticket_type[i];
                        &&& kv.0.len() == 3
                        &&& fin.has_event(kv.0[1])
                        &&& kv.1 <= fin.event_of(kv.0[1]).mint_count
                    } by {
                        let kv = fin.buys_per_ticket_type[i];
                        assert(pre.buys_per_ticket_type[i] == kv);
                        assert(kv.0[1] != event_id@);
                        assert(seq![kv.0[1]][0] == kv.0[1]);
                        assert(seq![event_id@][0] == event_id@);
                        assert(seq![kv.0[1]] != seq![event_id@]);
                    }
                    assert forall|i: int| 0 <= i < fin.buys_per_ticket_stage.len() implies {
                        let kv = #[trigger] fin.buys_per_ticket_stage[i];
                        &&& kv.0.len() == 4
                        &&& fin.has_event(kv.0[1])
                        &&& kv.1 <= fin.event_of(kv.0[1]).mint_count
                    } by {
                        let kv = fin.buys_per_ticket_stage[i];
                        assert(pre.buys_per_ticket_stage[i] == kv);
                        assert(kv.0[1] != event_id@);
                        assert(seq![kv.0[1]][0] == kv.0[1]);
                        assert(seq![event_id@][0] == event_id@);
                        assert(seq![kv.0[1]] != seq![event_id@]);
                    }
                    // tokens
                    assert forall|i: int| 0 <= i < fin.next_nonce.len() implies has_key(
                        fin.collections,
                        (#[trigger] fin.next_nonce[i]).0,
                    ) by {
                        if i < pre.next_nonce.len() {
                            assert(fin.next_nonce[i].0 == pre.next_nonce[i].0);
                        } else {
                            assert(fin.next_nonce[i].0 == seq![tokv]);
                        }
                    }
                    assert forall|i: int| 0 <= i < fin.event_by_id.len() implies {
                        let ev = (#[trigger] fin.event_by_id[i]).1;
                        &&& fin.has_collection(ev.token)
                        &&& has_key(fin.next_nonce, seq![ev.token])
                        &&& val_of(fin.next_nonce, seq![ev.token]) == ev.mint_count as u64 + 1
                    } by {
                        if i < pre.event_by_id.len() {
                            assert(fin.event_by_id[i] == pre.event_by_id[i]);
                            let ev = pre.event_by_id[i].1;
                            assert(ev.token != tokv);
                            assert(seq![ev.token][0] == ev.token);
                            assert(seq![tokv][0] == tokv);
                            assert(seq![ev.token] != seq![tokv]);
                        } else {
                            assert(fin.event_by_id[i] == (seq![event_id@], recv));
                            assert(recv.token == tokv);
                            assert(recv.mint_count == 0);
                        }
                    }
                    assert forall|i: int, j: int|
                        0 <= i < j < fin.event_by_id.len() implies (
                    #[trigger] fin.event_by_id[i]).1.token != (
                    #[trigger] fin.event_by_id[j]).1.token by {
                        if j < pre.event_by_id.len() {
                            assert(fin.event_by_id[i] == pre.event_by_id[i]);
                            assert(fin.event_by_id[j] == pre.event_by_id[j]);
                        } else {
                            assert(fin.event_by_id[i] == pre.event_by_id[i]);
                            assert(fin.event_by_id[j].1.token == tokv);
                            assert(pre.event_by_id[i].1.token != tokv);
                        }
                    }
                    assert(fin.inv_types());
                    assert forall|i: int|
                        0 <= i < fin.event_by_id.len() implies (
                    #[trigger] fin.event_by_id[i]).0 == seq![fin.event_by_id[i].1.id] by {
                        if i < pre.event_by_id.len() {
                            assert(fin.event_by_id[i] == pre.event_by_id[i]);
                        } else {
                            assert(fin.event_by_id[i] == (seq![event_id@], recv));
                        }
                    }
                }
                None
            },
            Err(()) => {
                let key = k1(event_id);
                let ghost pre = self@;
                let _ = self.events.remove(&key);
                proof {
                    lemma_kv_remove(pre.events, seq![event_id@]);
                    assert(self@.inv_counters());
                    assert(self@.inv_tokens());
                    assert(self@.inv_types());
                    assert(self@.inv_ids());
                }
                if refund_amount > 0 {
                    Some(Payment { token: egld_token(), nonce: 0, amount: refund_amount })
                } else {
                    None
                }
            },
        }
    }

    /// Creates a ticket type under an existing event with a fresh type id.
    pub fn create_ticket_type(&mut self, event_id: &Vec<u8>, args: &TicketTypeArgs) -> (r: Result<
        (),
        TicketingError,
    >)
        requires
            old(self)@.inv(),
        ensures
            match r {
                Ok(()) => {
                    &&& spec_create_ticket_type(old(self)@, event_id@, args@) == Ok::<
                        StateV,
                        TicketingError,
                    >(final(self)@)
                    &&& final(self)@.inv()
                },
                Err(er) => {
                    &&& spec_create_ticket_type(old(self)@, event_id@, args@) == Err::<
                        StateV,
                        TicketingError,
                    >(er)
                    &&& final(self)@ == old(self)@
                },
            },
    {
        match self.is_event_valid(event_id) {
            Ok(()) => (),
            Err(er) => {
                return Err(er);
            },
        }
        let set_key = k2(event_id, &args.id);
        if self.ticket_types.contains(&set_key) {
            return Err(TicketingError::TypeIdInUse);
        }
        let ghost pre = self@;
        self.ticket_types.upsert(set_key, ());
        let record = TicketType {
            base_name: clone_bytes(&args.base_name),
            image: clone_bytes(&args.image),
            royalties: args.royalties,
            id: clone_bytes(&args.id),
            max_per_user: args.max_per_user,
            mint_limit: args.mint_limit,
            mint_count: 0,
        };
        let ghost recv = record@;
        self.emit_ticket_type(&record, event_id);
        let rec_key = k2(event_id, &args.id);
        self.ticket_type_by_id.upsert(rec_key, record);
        proof {
            let fin = self@;
            let kk = seq![event_id@, args.id@];
            lemma_upsert(pre.ticket_types, kk, ());
            lemma_upsert(pre.ticket_type_by_id, kk, recv);
            assert(!has_key(pre.ticket_type_by_id, kk)) by {
                if has_key(pre.ticket_type_by_id, kk) {
                    lemma_key_index_props(pre.ticket_type_by_id, kk);
                    let i = crate::storage::key_index(pre.ticket_type_by_id, kk);
                    assert(has_key(pre.ticket_types, pre.ticket_type_by_id[i].0));
                }
            }
            assert(fin.inv_unique());
            assert(fin.inv_counters());
            assert(fin.inv_tokens());
            assert forall|i: int| 0 <= i < fin.ticket_types.len() implies {
                let kv = #[trigger] fin.ticket_types[i];
                &&& kv.0.len() == 2
                &&& has_key(fin.ticket_type_by_id, kv.0)
            } by {
                let kv = fin.ticket_types[i];
                if i < pre.ticket_types.len() {
                    assert(kv == pre.ticket_types[i]);
                    if kv.0 == kk {
                    } else {
                    }
                } else {
                    assert(kv.0 == kk);
                    assert(seq![event_id@, args.id@].len() == 2);
                }
            }
            assert forall|i: int| 0 <= i < fin.ticket_type_by_id.len() implies has_key(
                fin.ticket_types,
                (#[trigger] fin.ticket_type_by_id[i]).0,
            ) by {
                if i < pre.ticket_type_by_id.len() {
                    assert(fin.ticket_type_by_id[i] == pre.ticket_type_by_id[i]);
                    assert(has_key(pre.ticket_types, pre.ticket_type_by_id[i].0));
                    if pre.ticket_type_by_id[i].0 == kk {
                    } else {
                    }
                } else {
                    assert(fin.ticket_type_by_id[i].0 == kk);
                }
            }
            assert forall|i: int| 0 <= i < fin.ticket_type_by_id.len() implies {
                let kv = #[trigger] fin.ticket_type_by_id[i];
                &&& kv.0.len() == 2
                &&& kv.0[1] == kv.1.id
            } by {
                if i < pre.ticket_type_by_id.len() {
                    assert(fin.ticket_type_by_id[i] == pre.ticket_type_by_id[i]);
                } else {
                    assert(fin.ticket_type_by_id[i] == (kk, recv));
                    assert(kk[1] == args.id@);
                }
            }
        }
        Ok(())
    }

    /// Creates a ticket stage under an existing event and type with a fresh
    /// stage id.
    pub fn create_ticket_stage(
        &mut self,
        event_id: &Vec<u8>,
        ticket_type_id: &Vec<u8>,
        args: &TicketStageArgs,
    ) -> (r: Result<(), TicketingError>)
        requires
            old(self)@.inv(),
        ensures
            match r {
                Ok(()) => {
                    &&& spec_create_ticket_stage(old(self)@, event_id@, ticket_type_id@, args@)
                        == Ok::<StateV, TicketingError>(final(self)@)
                    &&& final(self)@.inv()
                },
                Err(er) => {
                    &&& spec_create_ticket_stage(old(self)@, event_id@, ticket_type_id@, args@)
                        == Err::<StateV, TicketingError>(er)
                    &&& final(self)@ == old(self)@
                },
            },
    {
        match self.is_event_valid(event_id) {
            Ok(()) => (),
            Err(er) => {
                return Err(er);
            },
        }
        match self.is_ticket_type_valid(event_id, ticket_type_id) {
            Ok(()) => (),
            Err(er) => {
                return Err(er);
            },
        }
        let stage_key = k3(event_id, ticket_type_id, &args.id);
        if self.ticket_stages.contains(&stage_key) {
            return Err(TicketingError::StageIdInUse);
        }
        let record = TicketStage {
            prices: clone_payments(&args.prices),
            id: clone_bytes(&args.id),
            ticket_type_id: clone_bytes(ticket_type_id),
            has_whitelist: args.has_whitelist,
            max_per_user: args.max_per_user,
            mint_limit: args.mint_limit,
            mint_count: 0,
            start_time: args.start_time,
            end_time: args.end_time,
            active: args.active,
        };
        self.emit_ticket_stage(&record, event_id);
        self.set_ticket_stage_record(event_id, ticket_type_id, record);
        Ok(())
    }

    /// Removes a ticket type, its listing, and all of its stages.
    pub fn remove_ticket_type(&mut self, event_id: &Vec<u8>, ticket_type_id: &Vec<u8>) -> (r:
        Result<(), TicketingError>)
        requires
            old(self)@.inv(),
        ensures
            match r {
                Ok(()) => {
                    &&& spec_remove_ticket_type(old(self)@, event_id@, ticket_type_id@) == Ok::<
                        StateV,
                        TicketingError,
                    >(final(self)@)
                    &&& final(self)@.inv()
                },
                Err(er) => {
                    &&& spec_remove_ticket_type(old(self)@, event_id@, ticket_type_id@) == Err::<
                        StateV,
                        TicketingError,
                    >(er)
                    &&& final(self)@ == old(self)@
                },
            },
    {
        match self.is_event_valid(event_id) {
            Ok(()) => (),
            Err(er) => {
                return Err(er);
            },
        }
        match self.is_ticket_type_valid(event_id, ticket_type_id) {
            Ok(()) => (),
            Err(er) => {
                return Err(er);
            },
        }
        let ghost pre = self@;
        let ghost kk = seq![event_id@, ticket_type_id@];
        self.ticket_stages.clear_prefix2(event_id, ticket_type_id);
        let set_key = k2(event_id, ticket_type_id);
        let _ = self.ticket_types.remove(&set_key);
        let rec_key = k2(event_id, ticket_type_id);
        let _ = self.ticket_type_by_id.remove(&rec_key);
        self.emit_remove_ticket_type(event_id, ticket_type_id);
        proof {
            let fin = self@;
            lemma_kv_clear2_props(pre.ticket_stages, event_id@, ticket_type_id@);
            lemma_kv_remove(pre.ticket_types, kk);
            lemma_kv_remove(pre.ticket_type_by_id, kk);
            assert(fin.inv_unique());
            assert(fin.inv_counters());
            assert(fin.inv_tokens());
            assert forall|i: int| 0 <= i < fin.ticket_types.len() implies {
                let kv = #[trigger] fin.ticket_types[i];
                &&& kv.0.len() == 2
                &&& has_key(fin.ticket_type_by_id, kv.0)
            } by {
                let kv = fin.ticket_types[i];
                assert(pre.ticket_types.contains(kv));
                let m = choose|m: int| 0 <= m < pre.ticket_types.len() && pre.ticket_types[m] == kv;
                crate::storage::lemma_key_index_unique(fin.ticket_types, kv.0, i);
                assert(has_key(fin.ticket_types, kv.0));
                assert(kv.0 != kk);
            }
            assert forall|i: int| 0 <= i < fin.ticket_type_by_id.len() implies has_key(
                fin.ticket_types,
                (#[trigger] fin.ticket_type_by_id[i]).0,
            ) by {
                let kv = fin.ticket_type_by_id[i];
                assert(pre.ticket_type_by_id.contains(kv));
                let m = choose|m: int|
                    0 <= m < pre.ticket_type_by_id.len() && pre.ticket_type_by_id[m] == kv;
                crate::storage::lemma_key_index_unique(fin.ticket_type_by_id, kv.0, i);
                assert(has_key(fin.ticket_type_by_id, kv.0));
                assert(kv.0 != kk);
                assert(has_key(pre.ticket_types, kv.0));
            }
            assert forall|i: int| 0 <= i < fin.ticket_type_by_id.len() implies {
                let kv = #[trigger] fin.ticket_type_by_id[i];
                &&& kv.0.len() == 2
                &&& kv.0[1] == kv.1.id
            } by {
                let kv = fin.ticket_type_by_id[i];
                assert(pre.ticket_type_by_id.contains(kv));
                let m = choose|m: int|
                    0 <= m < pre.ticket_type_by_id.len() && pre.ticket_type_by_id[m] == kv;
            }
            assert forall|i: int| 0 <= i < fin.ticket_stages.len() implies {
                let kv = #[trigger] fin.ticket_stages[i];
                &&& kv.0.len() == 3
                &&& kv.0[1] == kv.1.ticket_type_id
                &&& kv.0[2] == kv.1.id
            } by {
                let kv = fin.ticket_stages[i];
                assert(pre.ticket_stages.contains(kv));
                let m = choose|m: int|
                    0 <= m < pre.ticket_stages.len() && pre.ticket_stages[m] == kv;
            }
        }
        Ok(())
    }

    /// Removes a single ticket stage; an absent stage id is a quiet no-op.
    pub fn remove_ticket_stage(
        &mut self,
        event_id: &Vec<u8>,
        ticket_type_id: &Vec<u8>,
        ticket_stage_id: &Vec<u8>,
    ) -> (r: Result<(), TicketingError>)
        requires
            old(self)@.inv(),
        ensures
            match r {
                Ok(()) => {
                    &&& spec_remove_ticket_stage(
                        old(self)@,
                        event_id@,
                        ticket_type_id@,
                        ticket_stage_id@,
                    ) == Ok::<StateV, TicketingError>(final(self)@)
                    &&& final(self)@.inv()
                },
                Err(er) => {
                    &&& spec_remove_ticket_stage(
                        old(self)@,
                        event_id@,
                        ticket_type_id@,
                        ticket_stage_id@,
                    ) == Err::<StateV, TicketingError>(er)
                    &&& final(self)@ == old(self)@
                },
            },
    {
        match self.is_event_valid(event_id) {
            Ok(()) => (),
            Err(er) => {
                return Err(er);
            },
        }
        match self.is_ticket_type_valid(event_id, ticket_type_id) {
            Ok(()) => (),
            Err(er) => {
                return Err(er);
            },
        }
        let ghost pre = self@;
        proof {
            lemma_record_ids(pre, event_id@, ticket_type_id@, ticket_stage_id@);
        }
        let key = k3(event_id, ticket_type_id, ticket_stage_id);
        let removed = self.ticket_stages.remove(&key);
        proof {
            lemma_kv_remove(pre.ticket_stages, seq![event_id@, ticket_type_id@, ticket_stage_id@]);
            assert(self@.inv_unique());
            assert(self@.inv_counters());
            assert(self@.inv_tokens());
            assert(self@.inv_types());
            let fin = self@;
            assert forall|i: int| 0 <= i < fin.ticket_stages.len() implies {
                let kv = #[trigger] fin.ticket_stages[i];
                &&& kv.0.len() == 3
                &&& kv.0[1] == kv.1.ticket_type_id
                &&& kv.0[2] == kv.1.id
            } by {
                let kv = fin.ticket_stages[i];
                assert(pre.ticket_stages.contains(kv));
                let m = choose|m: int|
                    0 <= m < pre.ticket_stages.len() && pre.ticket_stages[m] == kv;
            }
        }
        match removed {
            Some(st) => {
                self.emit_remove_ticket_stage(event_id, st);
            },
            None => {},
        }
        Ok(())
    }

    /// Edits a ticket type: metadata and limits replaced, identity and the
    /// running mint count kept.
    pub fn edit_ticket_type(&mut self, event_id: &Vec<u8>, args: &TicketTypeArgs) -> (r: Result<
        (),
        TicketingError,
    >)
        requires
            old(self)@.inv(),
        ensures
            match r {
                Ok(()) => {
                    &&& spec_edit_ticket_type(old(self)@, event_id@, args@) == Ok::<
                        StateV,
                        TicketingError,
                    >(final(self)@)
                    &&& final(self)@.inv()
                },
                Err(er) => {
                    &&& spec_edit_ticket_type(old(self)@, event_id@, args@) == Err::<
                        StateV,
                        TicketingError,
                    >(er)
                    &&& final(self)@ == old(self)@
                },
            },
    {
        match self.is_event_valid(event_id) {
            Ok(()) => (),
            Err(er) => {
                return Err(er);
            },
        }
        let old_rec = match self.does_ticket_type_exists(event_id, &args.id) {
            Ok(t) => t,
            Err(_) => {
                return Err(TicketingError::TypeNotFound);
            },
        };
        let record = TicketType {
            base_name: clone_bytes(&args.base_name),
            image: clone_bytes(&args.image),
            royalties: args.royalties,
            mint_limit: args.mint_limit,
            max_per_user: args.max_per_user,
            ..old_rec
        };
        proof {
            lemma_record_ids(self@, event_id@, args.id@, args.id@);
        }
        self.emit_ticket_type(&record, event_id);
        self.set_ticket_type_record(event_id, record);
        Ok(())
    }

    /// Edits a ticket stage: caller-supplied fields replaced, identity and
    /// the running mint count kept; an absent stage id is a quiet no-op.
    pub fn edit_ticket_stage(
        &mut self,
        event_id: &Vec<u8>,
        ticket_type_id: &Vec<u8>,
        args: &TicketStageArgs,
    ) -> (r: Result<(), TicketingError>)
        requires
            old(self)@.inv(),
        ensures
            match r {
                Ok(()) => {
                    &&& spec_edit_ticket_stage(old(self)@, event_id@, ticket_type_id@, args@)
                        == Ok::<StateV, TicketingError>(final(self)@)
                    &&& final(self)@.inv()
                },
                Err(er) => {
                    &&& spec_edit_ticket_stage(old(self)@, event_id@, ticket_type_id@, args@)
                        == Err::<StateV, TicketingError>(er)
                    &&& final(self)@ == old(self)@
                },
            },
    {
        match self.is_event_valid(event_id) {
            Ok(()) => (),
            Err(er) => {
                return Err(er);
            },
        }
        match self.is_ticket_type_valid(event_id, ticket_type_id) {
            Ok(()) => (),
            Err(er) => {
                return Err(er);
            },
        }
        let old_rec = match self.is_ticket_stage_valid(event_id, ticket_type_id, &args.id) {
            Ok(st) => st,
            Err(_) => {
                return Ok(());
            },
        };
        let record = TicketStage {
            prices: clone_payments(&args.prices),
            has_whitelist: args.has_whitelist,
            max_per_user: args.max_per_user,
            end_time: args.end_time,
            start_time: args.start_time,
            mint_limit: args.mint_limit,
            active: args.active,
            ..old_rec
        };
        proof {
            lemma_record_ids(self@, event_id@, ticket_type_id@, args.id@);
        }
        self.emit_ticket_stage(&record, event_id);
        self.set_ticket_stage_record(event_id, ticket_type_id, record);
        Ok(())
    }

    /// Edits an event's flags and caps; identity, token, fee snapshot and
    /// the running mint count are kept.
    pub fn edit_event(&mut self, event_id: &Vec<u8>, args: EventArgs) -> (r: Result<
        (),
        TicketingError,
    >)
        requires
            old(self)@.inv(),
        ensures
            match r {
                Ok(()) => {
                    &&& spec_edit_event(old(self)@, event_id@, args) == Ok::<
                        StateV,
                        TicketingError,
                    >(final(self)@)
                    &&& final(self)@.inv()
                },
                Err(er) => {
                    &&& spec_edit_event(old(self)@, event_id@, args) == Err::<
                        StateV,
                        TicketingError,
                    >(er)
                    &&& final(self)@ == old(self)@
                },
            },
    {
        let old_rec = match self.does_event_exists(event_id) {
            Ok(e) => e,
            Err(er) => {
                return Err(er);
            },
        };
        let record = Event {
            max_capacity: args.max_capacity,
            max_per_user: args.max_per_user,
            has_kyc: args.has_kyc,
            refund_policy: args.refund_policy,
            append_number: args.append_number,
            bot_protection: args.bot_protection,
            ..old_rec
        };
        proof {
            lemma_record_ids(self@, event_id@, event_id@, event_id@);
        }
        self.emit_event(&record);
        self.set_event_record(record);
        Ok(())
    }

    /// Adds each wallet to the stage's whitelist.
    pub fn add_to_whitelist(
        &mut self,
        event_id: &Vec<u8>,
        ticket_type_id: &Vec<u8>,
        ticket_stage_id: &Vec<u8>,
        wallets: &Vec<Vec<u8>>,
    ) -> (r: Result<(), TicketingError>)
        requires
            old(self)@.inv(),
        ensures
            match r {
                Ok(()) => {
                    &&& final(self)@ == (StateV {
                        whitelist_wallets: spec_wl_add(
                            old(self)@.whitelist_wallets,
                            event_id@,
                            ticket_type_id@,
                            ticket_stage_id@,
                            wallets.deep_view(),
                        ),
                        log: old(self)@.log.push(
                            DomainEventV::WhitelistChanged { wallets: wallets.deep_view() },
                        ),
                        ..old(self)@
                    })
                    &&& old(self)@.has_event(event_id@)
                    &&& old(self)@.has_type(event_id@, ticket_type_id@)
                    &&& final(self)@.inv()
                },
                Err(er) => {
                    &&& (er == TicketingError::EventNotFound && !old(self)@.has_event(event_id@)
                        || er == TicketingError::TypeNotFound && old(self)@.has_event(event_id@)
                        && !old(self)@.has_type(event_id@, ticket_type_id@))
                    &&& final(self)@ == old(self)@
                },
            },
    {
        match self.is_event_valid(event_id) {
            Ok(()) => (),
            Err(er) => {
                return Err(er);
            },
        }
        match self.is_ticket_type_valid(event_id, ticket_type_id) {
            Ok(()) => (),
            Err(er) => {
                return Err(er);
            },
        }
        self.emit_whitelist_event(wallets);
        let ghost mid = self@;
        let ghost ws = wallets.deep_view();
        proof {
            lemma_key_view(*wallets);
            assert(ws.skip(0) =~= ws);
        }
        for i in 0..wallets.len()
            invariant
                wallets.deep_view() == ws,
                ws.len() == wallets@.len(),
                forall|j: int| 0 <= j < wallets@.len() ==> ws[j] == wallets@[j]@,
                (StateV { whitelist_wallets: mid.whitelist_wallets, ..self@ }) == mid,
                spec_wl_add(
                    self@.whitelist_wallets,
                    event_id@,
                    ticket_type_id@,
                    ticket_stage_id@,
                    ws.skip(i as int),
                ) == spec_wl_add(
                    mid.whitelist_wallets,
                    event_id@,
                    ticket_type_id@,
                    ticket_stage_id@,
                    ws,
                ),
        {
            let ghost cur = self@.whitelist_wallets;
            let key = k4(event_id, ticket_type_id, ticket_stage_id, &wallets[i]);
            self.whitelist_wallets.upsert(key, ());
            proof {
                assert(ws.skip(i as int).drop_first() =~= ws.skip(i as int + 1));
                assert(ws.skip(i as int)[0] == ws[i as int]);
            }
        }
        proof {
            assert(ws.skip(wallets@.len() as int) =~= Seq::<Seq<u8>>::empty());
            lemma_wl_add(
                mid.whitelist_wallets,
                event_id@,
                ticket_type_id@,
                ticket_stage_id@,
                ws,
            );
            assert(self@.inv_counters());
            assert(self@.inv_tokens());
            assert(self@.inv_types());
            assert(self@.inv_ids());
        }
        Ok(())
    }

    /// Removes each wallet from the stage's whitelist.
    pub fn remove_from_whitelist(
        &mut self,
        event_id: &Vec<u8>,
        ticket_type_id: &Vec<u8>,
        ticket_stage_id: &Vec<u8>,
        wallets: &Vec<Vec<u8>>,
    ) -> (r: Result<(), TicketingError>)
        requires
            old(self)@.inv(),
        ensures
            match r {
                Ok(()) => {
                    &&& final(self)@ == (StateV {
                        whitelist_wallets: spec_wl_remove(
                            old(self)@.whitelist_wallets,
                            event_id@,
                            ticket_type_id@,
                            ticket_stage_id@,
                            wallets.deep_view(),
                        ),
                        log: old(self)@.log.push(
                            DomainEventV::WhitelistChanged { wallets: wallets.deep_view() },
                        ),
                        ..old(self)@
                    })
                    &&& old(self)@.has_event(event_id@)
                    &&& old(self)@.has_type(event_id@, ticket_type_id@)
                    &&& final(self)@.inv()
                },
                Err(er) => {
                    &&& (er == TicketingError::EventNotFound && !old(self)@.has_event(event_id@)
                        || er == TicketingError::TypeNotFound && old(self)@.has_event(event_id@)
                        && !old(self)@.has_type(event_id@, ticket_type_id@))
                    &&& final(self)@ == old(self)@
                },
            },
    {
        match self.is_event_valid(event_id) {
            Ok(()) => (),
            Err(er) => {
                return Err(er);
            },
        }
        match self.is_ticket_type_valid(event_id, ticket_type_id) {
            Ok(()) => (),
            Err(er) => {
                return Err(er);
            },
        }
        self.emit_whitelist_event(wallets);
        let ghost mid = self@;
        let ghost ws = wallets.deep_view();
        proof {
            lemma_key_view(*wallets);
            assert(ws.skip(0) =~= ws);
        }
        for i in 0..wallets.len()
            invariant
                wallets.deep_view() == ws,
                ws.len() == wallets@.len(),
                forall|j: int| 0 <= j < wallets@.len() ==> ws[j] == wallets@[j]@,
                (StateV { whitelist_wallets: mid.whitelist_wallets, ..self@ }) == mid,
                spec_wl_remove(
                    self@.whitelist_wallets,
                    event_id@,
                    ticket_type_id@,
                    ticket_stage_id@,
                    ws.skip(i as int),
                ) == spec_wl_remove(
                    mid.whitelist_wallets,
                    event_id@,
                    ticket_type_id@,
                    ticket_stage_id@,
                    ws,
                ),
        {
            let key = k4(event_id, ticket_type_id, ticket_stage_id, &wallets[i]);
            let _ = self.whitelist_wallets.remove(&key);
            proof {
                assert(ws.skip(i as int).drop_first() =~= ws.skip(i as int + 1));
                assert(ws.skip(i as int)[0] == ws[i as int]);
            }
        }
        proof {
            assert(ws.skip(wallets@.len() as int) =~= Seq::<Seq<u8>>::empty());
            lemma_wl_remove(
                mid.whitelist_wallets,
                event_id@,
                ticket_type_id@,
                ticket_stage_id@,
                ws,
            );
            assert(self@.inv_counters());
            assert(self@.inv_tokens());
            assert(self@.inv_types());
            assert(self@.inv_ids());
        }
        Ok(())
    }
}

} // verus!
