//! The general laws of the ledger, stated and proved once over the
//! mathematical state.

use vstd::prelude::*;

use crate::errors::TicketingError;
use crate::manage::spec_create_ticket_type;
use crate::common::spec_mint_apply;
use crate::storage::key_index;
use crate::storage::lemma_key_index_props;
use crate::storage::lemma_upsert;
use crate::structs::EventV;
use crate::structs::TicketStageV;
use crate::structs::TicketTypeArgsV;
use crate::structs::TicketTypeV;
use crate::structs::spec_type_record;
use crate::ticketing::StateV;
use crate::views::spec_events_upto;
use crate::views::spec_types_upto;
use crate::views::spec_whitelist_count_upto;

verus! {

/// A successful mint advances the event's, type's and stage's mint counts
/// and all three of the recipient's counters by exactly the minted
/// quantity, atomically in one step.
pub proof fn lemma_mint_advances_counts(
    s: StateV,
    e: EventV,
    t: TicketTypeV,
    st: TicketStageV,
    to: Seq<u8>,
    q: u32,
)
    requires
        s.inv(),
        s.has_event(e.id),
        s.event_of(e.id) == e,
        s.has_type(e.id, t.id),
        s.type_of(e.id, t.id) == t,
        s.has_stage(e.id, t.id, st.id),
        s.stage_of(e.id, t.id, st.id) == st,
        e.mint_count + q <= e.max_capacity,
        t.mint_count + q <= t.mint_limit,
        st.mint_count + q <= st.mint_limit,
    ensures
        ({
            let s2 = spec_mint_apply(s, e, t, Some(st), to, q);
            &&& s2.event_of(e.id).mint_count == e.mint_count + q
            &&& s2.type_of(e.id, t.id).mint_count == t.mint_count + q
            &&& s2.stage_of(e.id, t.id, st.id).mint_count == st.mint_count + q
            &&& s2.buys_event(to, e.id) == s.buys_event(to, e.id) + q
            &&& s2.buys_type(to, e.id, t.id) == s.buys_type(to, e.id, t.id) + q
            &&& s2.buys_stage(to, e.id, t.id, st.id) == s.buys_stage(to, e.id, t.id, st.id) + q
        }),
{
    let s2 = spec_mint_apply(s, e, t, Some(st), to, q);
    lemma_upsert(
        s.event_by_id,
        seq![e.id],
        (EventV { mint_count: (e.mint_count + q) as u32, ..e }),
    );
    lemma_upsert(
        s.ticket_type_by_id,
        seq![e.id, t.id],
        (TicketTypeV { mint_count: (t.mint_count + q) as u32, ..t }),
    );
    lemma_upsert(
        s.ticket_stages,
        seq![e.id, t.id, st.id],
        (TicketStageV { mint_count: (st.mint_count + q) as u32, ..st }),
    );
    // the recipient's counters stay within the machine range because no
    // counter outruns its event's mint count
    lemma_key_index_props(s.buys_per_event, seq![to, e.id]);
    if crate::storage::has_key(s.buys_per_event, seq![to, e.id]) {
        let i = key_index(s.buys_per_event, seq![to, e.id]);
        assert(s.buys_per_event[i].1 <= s.event_of(s.buys_per_event[i].0[1]).mint_count);
        assert(seq![to, e.id][1] == e.id);
    }
    lemma_key_index_props(s.buys_per_ticket_type, seq![to, e.id, t.id]);
    if crate::storage::has_key(s.buys_per_ticket_type, seq![to, e.id, t.id]) {
        let i = key_index(s.buys_per_ticket_type, seq![to, e.id, t.id]);
        assert(s.buys_per_ticket_type[i].1 <= s.event_of(
            s.buys_per_ticket_type[i].0[1],
        ).mint_count);
        assert(seq![to, e.id, t.id][1] == e.id);
    }
    lemma_key_index_props(s.buys_per_ticket_stage, seq![to, e.id, t.id, st.id]);
    if crate::storage::has_key(s.buys_per_ticket_stage, seq![to, e.id, t.id, st.id]) {
        let i = key_index(s.buys_per_ticket_stage, seq![to, e.id, t.id, st.id]);
        assert(s.buys_per_ticket_stage[i].1 <= s.event_of(
            s.buys_per_ticket_stage[i].0[1],
        ).mint_count);
        assert(seq![to, e.id, t.id, st.id][1] == e.id);
    }
    lemma_upsert(
        s.buys_per_event,
        seq![to, e.id],
        (s.buys_event(to, e.id) + q) as u32,
    );
    lemma_upsert(
        s.buys_per_ticket_type,
        seq![to, e.id, t.id],
        (s.buys_type(to, e.id, t.id) + q) as u32,
    );
    lemma_upsert(
        s.buys_per_ticket_stage,
        seq![to, e.id, t.id, st.id],
        (s.buys_stage(to, e.id, t.id, st.id) + q) as u32,
    );
}

/// After a mint that passed the capacity checks, no mint count exceeds its
/// ceiling: the stage's and type's limits and the event's capacity.
pub proof fn lemma_mint_respects_ceilings(
    s: StateV,
    e: EventV,
    t: TicketTypeV,
    st: TicketStageV,
    to: Seq<u8>,
    q: u32,
)
    requires
        s.inv(),
        s.has_event(e.id),
        s.event_of(e.id) == e,
        s.has_type(e.id, t.id),
        s.type_of(e.id, t.id) == t,
        s.has_stage(e.id, t.id, st.id),
        s.stage_of(e.id, t.id, st.id) == st,
        e.mint_count + q <= e.max_capacity,
        t.mint_count + q <= t.mint_limit,
        st.mint_count + q <= st.mint_limit,
    ensures
        ({
            let s2 = spec_mint_apply(s, e, t, Some(st), to, q);
            &&& s2.event_of(e.id).mint_count <= s2.event_of(e.id).max_capacity
            &&& s2.type_of(e.id, t.id).mint_count <= s2.type_of(e.id, t.id).mint_limit
            &&& s2.stage_of(e.id, t.id, st.id).mint_count <= s2.stage_of(
                e.id,
                t.id,
                st.id,
            ).mint_limit
        }),
{
    lemma_mint_advances_counts(s, e, t, st, to, q);
    let s2 = spec_mint_apply(s, e, t, Some(st), to, q);
    lemma_upsert(
        s.event_by_id,
        seq![e.id],
        (EventV { mint_count: (e.mint_count + q) as u32, ..e }),
    );
    lemma_upsert(
        s.ticket_type_by_id,
        seq![e.id, t.id],
        (TicketTypeV { mint_count: (t.mint_count + q) as u32, ..t }),
    );
    lemma_upsert(
        s.ticket_stages,
        seq![e.id, t.id, st.id],
        (TicketStageV { mint_count: (st.mint_count + q) as u32, ..st }),
    );
}

/// Read-only queries are functions of the state alone: two results of the
/// same query against the same state are identical.
pub proof fn lemma_views_idempotent(
    s: StateV,
    e: Seq<u8>,
    t: Seq<u8>,
    st: Seq<u8>,
    ev1: Result<Seq<EventV>, TicketingError>,
    ev2: Result<Seq<EventV>, TicketingError>,
    ty1: Seq<TicketTypeV>,
    ty2: Seq<TicketTypeV>,
    wc1: int,
    wc2: int,
)
    requires
        ev1 == spec_events_upto(s, s.events.len() as int),
        ev2 == spec_events_upto(s, s.events.len() as int),
        ty1 == spec_types_upto(s, e, s.ticket_types.len() as int),
        ty2 == spec_types_upto(s, e, s.ticket_types.len() as int),
        wc1 == spec_whitelist_count_upto(s, e, t, st, s.whitelist_wallets.len() as int),
        wc2 == spec_whitelist_count_upto(s, e, t, st, s.whitelist_wallets.len() as int),
    ensures
        ev1 == ev2,
        ty1 == ty2,
        wc1 == wc2,
{
}

/// Round trip: creating a ticket type with given arguments and reading it
/// back yields exactly those arguments, with a zero mint count.
pub proof fn lemma_create_type_round_trip(s: StateV, e_id: Seq<u8>, args: TicketTypeArgsV)
    requires
        s.inv(),
        spec_create_ticket_type(s, e_id, args) is Ok,
    ensures
        spec_create_ticket_type(s, e_id, args) matches Ok(s2) ==> {
            &&& s2.has_type(e_id, args.id)
            &&& s2.type_of(e_id, args.id) == spec_type_record(args)
            &&& s2.type_of(e_id, args.id).base_name == args.base_name
            &&& s2.type_of(e_id, args.id).image == args.image
            &&& s2.type_of(e_id, args.id).royalties == args.royalties
            &&& s2.type_of(e_id, args.id).id == args.id
            &&& s2.type_of(e_id, args.id).max_per_user == args.max_per_user
            &&& s2.type_of(e_id, args.id).mint_limit == args.mint_limit
            &&& s2.type_of(e_id, args.id).mint_count == 0
        },
{
    lemma_upsert(s.ticket_type_by_id, seq![e_id, args.id], spec_type_record(args));
}

} // verus!