//! Read-only views over the ledger.
//!
//! Each view's result is an exact function of the state, so repeated
//! queries without an intervening mutation return identical results.

use vstd::prelude::*;

use crate::bytes::bytes_eq;
use crate::bytes::clone_bytes;
use crate::errors::TicketingError;
use crate::storage::has_key;
use crate::storage::k1;
use crate::storage::lemma_deep_view_push;
use crate::storage::lemma_key_view;
use crate::storage::val_of;
use crate::structs::Event;
use crate::structs::EventV;
use crate::structs::Payment;
use crate::structs::TicketStage;
use crate::structs::TicketStageV;
use crate::structs::TicketType;
use crate::structs::TicketTypeV;
use crate::structs::clone_event;
use crate::structs::clone_payment;
use crate::structs::clone_ticket_stage;
use crate::structs::clone_ticket_type;
use crate::ticketing::StateV;
use crate::ticketing::Ticketing;

verus! {

/// The event records of the first `n` listed event ids, or the error for
/// the first listed id with no record.
pub open spec fn spec_events_upto(s: StateV, n: int) -> Result<Seq<EventV>, TicketingError>
    decreases n,
{
    if n <= 0 {
        Ok(Seq::empty())
    } else {
        match spec_events_upto(s, n - 1) {
            Err(er) => Err(er),
            Ok(pre) => {
                if has_key(s.event_by_id, s.events[n - 1].0) {
                    Ok(pre.push(val_of(s.event_by_id, s.events[n - 1].0)))
                } else {
                    Err(TicketingError::EventNotFound)
                }
            },
        }
    }
}

/// Once listing fails, it fails for every longer prefix.
proof fn lemma_events_upto_err(s: StateV, n: int, m: int)
    requires
        0 <= n <= m,
        spec_events_upto(s, n) is Err,
    ensures
        spec_events_upto(s, m) == spec_events_upto(s, n),
    decreases m - n,
{
    if m > n {
        lemma_events_upto_err(s, n, m - 1);
    }
}

/// The records of the first `n` type listings that belong to event `e`.
pub open spec fn spec_types_upto(s: StateV, e: Seq<u8>, n: int) -> Seq<TicketTypeV>
    decreases n,
{
    if n <= 0 {
        Seq::empty()
    } else {
        let pre = spec_types_upto(s, e, n - 1);
        let kv = s.ticket_types[n - 1];
        if kv.0.len() == 2 && kv.0[0] == e {
            pre.push(val_of(s.ticket_type_by_id, kv.0))
        } else {
            pre
        }
    }
}

/// The first `n` stage records that belong to type `(e, t)`.
pub open spec fn spec_type_stages_upto(s: StateV, e: Seq<u8>, t: Seq<u8>, n: int) -> Seq<
    TicketStageV,
>
    decreases n,
{
    if n <= 0 {
        Seq::empty()
    } else {
        let pre = spec_type_stages_upto(s, e, t, n - 1);
        let kv = s.ticket_stages[n - 1];
        if kv.0.len() == 3 && kv.0[0] == e && kv.0[1] == t {
            pre.push(kv.1)
        } else {
            pre
        }
    }
}

/// The stage records of event `e`, grouped by its first `n` type listings.
pub open spec fn spec_all_stages_upto(s: StateV, e: Seq<u8>, n: int) -> Seq<TicketStageV>
    decreases n,
{
    if n <= 0 {
        Seq::empty()
    } else {
        let pre = spec_all_stages_upto(s, e, n - 1);
        let kv = s.ticket_types[n - 1];
        if kv.0.len() == 2 && kv.0[0] == e {
            pre + spec_type_stages_upto(s, e, kv.0[1], s.ticket_stages.len() as int)
        } else {
            pre
        }
    }
}

/// The tokens of the first `n` income ledger entries.
pub open spec fn spec_income_tokens_upto(s: StateV, n: int) -> Seq<Seq<u8>>
    decreases n,
{
    if n <= 0 {
        Seq::empty()
    } else {
        spec_income_tokens_upto(s, n - 1).push(s.income[n - 1].1.token)
    }
}

/// How many of the first `n` whitelist entries belong to stage `(e, t, st)`.
pub open spec fn spec_whitelist_count_upto(
    s: StateV,
    e: Seq<u8>,
    t: Seq<u8>,
    st: Seq<u8>,
    n: int,
) -> int
    decreases n,
{
    if n <= 0 {
        0
    } else {
        let pre = spec_whitelist_count_upto(s, e, t, st, n - 1);
        let kv = s.whitelist_wallets[n - 1];
        if kv.0.len() == 4 && kv.0[0] == e && kv.0[1] == t && kv.0[2] == st {
            pre + 1
        } else {
            pre
        }
    }
}

impl Ticketing {
    /// Every event record, in listing order; an id still awaiting issuance
    /// has no record and fails the whole listing.
    pub fn get_events(&self) -> (r: Result<Vec<Event>, TicketingError>)
        ensures
            match r {
                Ok(v) => spec_events_upto(self@, self@.events.len() as int) == Ok::<
                    Seq<EventV>,
                    TicketingError,
                >(v.deep_view()),
                Err(er) => spec_events_upto(self@, self@.events.len() as int) == Err::<
                    Seq<EventV>,
                    TicketingError,
                >(er),
            },
    {
        let mut results: Vec<Event> = Vec::new();
        proof {
            assert(results.deep_view() =~= Seq::<EventV>::empty());
        }
        let n = self.events.len();
        for i in 0..n
            invariant
                n == self@.events.len(),
                spec_events_upto(self@, i as int) == Ok::<Seq<EventV>, TicketingError>(
                    results.deep_view(),
                ),
        {
            let key = crate::storage::clone_key(self.events.key_at(i));
            match self.event_by_id.find(&key) {
                Some(j) => {
                    let ghost pre_vec = results;
                    let rec = clone_event(self.event_by_id.val_at(j));
                    let ghost recv = rec.deep_view();
                    results.push(rec);
                    proof {
                        lemma_deep_view_push(pre_vec, results, rec);
                        assert(recv == val_of(self@.event_by_id, self@.events[i as int].0));
                    }
                },
                None => {
                    proof {
                        lemma_events_upto_err(self@, i as int + 1, self@.events.len() as int);
                    }
                    return Err(TicketingError::EventNotFound);
                },
            }
        }
        proof {
            assert(results.deep_view() == spec_events_upto(self@, n as int)->Ok_0);
        }
        Ok(results)
    }

    /// Every ticket type record of `event_id`, in listing order.
    pub fn get_types(&self, event_id: &Vec<u8>) -> (r: Vec<TicketType>)
        requires
            self@.inv(),
        ensures
            r.deep_view() == spec_types_upto(self@, event_id@, self@.ticket_types.len() as int),
    {
        let mut results: Vec<TicketType> = Vec::new();
        proof {
            assert(results.deep_view() =~= Seq::<TicketTypeV>::empty());
        }
        let n = self.ticket_types.len();
        for i in 0..n
            invariant
                self@.inv(),
                n == self@.ticket_types.len(),
                results.deep_view() == spec_types_upto(self@, event_id@, i as int),
        {
            let hit = {
                let key = self.ticket_types.key_at(i);
                proof {
                    lemma_key_view(*key);
                }
                key.len() == 2 && bytes_eq(&key[0], event_id)
            };
            if hit {
                let key = crate::storage::clone_key(self.ticket_types.key_at(i));
                match self.ticket_type_by_id.find(&key) {
                    Some(j) => {
                        let ghost pre_vec = results;
                        let rec = clone_ticket_type(self.ticket_type_by_id.val_at(j));
                        results.push(rec);
                        proof {
                            lemma_deep_view_push(pre_vec, results, rec);
                        }
                    },
                    None => {
                        // every listed type has a record
                        proof {
                            assert(false);
                        }
                    },
                }
            }
        }
        results
    }

    /// Every stage record of type `(event_id, ticket_type_id)`, in listing
    /// order.
    pub fn get_type_stages(&self, event_id: &Vec<u8>, ticket_type_id: &Vec<u8>) -> (r: Vec<
        TicketStage,
    >)
        ensures
            r.deep_view() == spec_type_stages_upto(
                self@,
                event_id@,
                ticket_type_id@,
                self@.ticket_stages.len() as int,
            ),
    {
        let mut results: Vec<TicketStage> = Vec::new();
        proof {
            assert(results.deep_view() =~= Seq::<TicketStageV>::empty());
        }
        let n = self.ticket_stages.len();
        for i in 0..n
            invariant
                n == self@.ticket_stages.len(),
                results.deep_view() == spec_type_stages_upto(
                    self@,
                    event_id@,
                    ticket_type_id@,
                    i as int,
                ),
        {
            let hit = {
                let key = self.ticket_stages.key_at(i);
                proof {
                    lemma_key_view(*key);
                }
                key.len() == 3 && bytes_eq(&key[0], event_id) && bytes_eq(&key[1], ticket_type_id)
            };
            if hit {
                let ghost pre_vec = results;
                let rec = clone_ticket_stage(self.ticket_stages.val_at(i));
                results.push(rec);
                proof {
                    lemma_deep_view_push(pre_vec, results, rec);
                }
            }
        }
        results
    }

    /// Every stage record of `event_id`, grouped by ticket type in listing
    /// order.
    pub fn get_all_stages(&self, event_id: &Vec<u8>) -> (r: Vec<TicketStage>)
        requires
            self@.inv(),
        ensures
            r.deep_view() == spec_all_stages_upto(
                self@,
                event_id@,
                self@.ticket_types.len() as int,
            ),
    {
        let mut results: Vec<TicketStage> = Vec::new();
        proof {
            assert(results.deep_view() =~= Seq::<TicketStageV>::empty());
        }
        let n = self.ticket_types.len();
        for i in 0..n
            invariant
                self@.inv(),
                n == self@.ticket_types.len(),
                results.deep_view() == spec_all_stages_upto(self@, event_id@, i as int),
        {
            let hit = {
                let key = self.ticket_types.key_at(i);
                proof {
                    lemma_key_view(*key);
                }
                key.len() == 2 && bytes_eq(&key[0], event_id)
            };
            if hit {
                let type_id = {
                    let key = self.ticket_types.key_at(i);
                    proof {
                        lemma_key_view(*key);
                    }
                    clone_bytes(&key[1])
                };
                let sub = self.get_type_stages(event_id, &type_id);
                let ghost pre = results.deep_view();
                proof {
                    assert(pre + sub.deep_view().subrange(0, 0) =~= pre);
                }
                for j in 0..sub.len()
                    invariant
                        sub.deep_view() == spec_type_stages_upto(
                            self@,
                            event_id@,
                            type_id@,
                            self@.ticket_stages.len() as int,
                        ),
                        sub.deep_view().len() == sub@.len(),
                        results.deep_view() == pre + sub.deep_view().subrange(0, j as int),
                {
                    let ghost pre_vec = results;
                    let rec = clone_ticket_stage(&sub[j]);
                    results.push(rec);
                    proof {
                        lemma_deep_view_push(pre_vec, results, rec);
                        assert(sub.deep_view()[j as int] == sub@[j as int].deep_view());
                        assert((pre + sub.deep_view().subrange(0, j as int)).push(
                            sub.deep_view()[j as int],
                        ) =~= pre + sub.deep_view().subrange(0, j as int + 1));
                    }
                }
                proof {
                    assert(sub.deep_view().subrange(0, sub.deep_view().len() as int) =~= sub.deep_view());
                    assert(results.deep_view() == pre + sub.deep_view());
                }
            }
        }
        results
    }

    /// The token of every income ledger entry, in insertion order.
    pub fn get_all_income_tokens(&self) -> (r: Vec<Vec<u8>>)
        ensures
            r.deep_view() == spec_income_tokens_upto(self@, self@.income.len() as int),
    {
        let mut results: Vec<Vec<u8>> = Vec::new();
        proof {
            assert(results.deep_view() =~= Seq::<Seq<u8>>::empty());
        }
        let n = self.income.len();
        for i in 0..n
            invariant
                n == self@.income.len(),
                results.deep_view() == spec_income_tokens_upto(self@, i as int),
        {
            let ghost pre_vec = results;
            let tok = clone_bytes(&self.income.val_at(i).token);
            results.push(tok);
            proof {
                lemma_deep_view_push(pre_vec, results, tok);
                assert(tok.deep_view() =~= tok@);
            }
        }
        results
    }

    /// The accrued income entry for `token`, if any.
    pub fn get_all_income_payments(&self, token: &Vec<u8>) -> (r: Option<Payment>)
        ensures
            match r {
                Some(p) => self@.has_income(token@) && p@ == self@.income_of(token@),
                None => !self@.has_income(token@),
            },
    {
        let key = k1(token);
        match self.income.find(&key) {
            Some(i) => Some(clone_payment(self.income.val_at(i))),
            None => None,
        }
    }

    /// The next nonce the event's collection would mint (0 before
    /// issuance).
    pub fn get_next_nonce(&self, token: &Vec<u8>) -> (r: u64)
        ensures
            r == self@.nonce_of(token@),
    {
        let key = k1(token);
        match self.next_nonce.find(&key) {
            Some(i) => *self.next_nonce.val_at(i),
            None => 0,
        }
    }

    /// Whether `token` is an issued collection of this ledger.
    pub fn has_collection(&self, token: &Vec<u8>) -> (r: bool)
        ensures
            r == self@.has_collection(token@),
    {
        let key = k1(token);
        self.collections.contains(&key)
    }

    /// The issued token of `event_id`, if issuance has confirmed.
    pub fn token_by_event_id(&self, event_id: &Vec<u8>) -> (r: Option<Vec<u8>>)
        ensures
            match r {
                Some(tok) => self@.has_token(event_id@) && tok@ == self@.token_of(event_id@),
                None => !self@.has_token(event_id@),
            },
    {
        let key = k1(event_id);
        match self.token_manager.find(&key) {
            Some(i) => Some(clone_bytes(self.token_manager.val_at(i))),
            None => None,
        }
    }

    /// How many wallets are whitelisted for stage `(event_id,
    /// ticket_type_id, ticket_stage_id)`.
    pub fn whitelisted_size(
        &self,
        event_id: &Vec<u8>,
        ticket_type_id: &Vec<u8>,
        ticket_stage_id: &Vec<u8>,
    ) -> (r: usize)
        ensures
            r == spec_whitelist_count_upto(
                self@,
                event_id@,
                ticket_type_id@,
                ticket_stage_id@,
                self@.whitelist_wallets.len() as int,
            ),
    {
        let mut count: usize = 0;
        let n = self.whitelist_wallets.len();
        for i in 0..n
            invariant
                n == self@.whitelist_wallets.len(),
                count <= i,
                count == spec_whitelist_count_upto(
                    self@,
                    event_id@,
                    ticket_type_id@,
                    ticket_stage_id@,
                    i as int,
                ),
        {
            let hit = {
                let key = self.whitelist_wallets.key_at(i);
                proof {
                    lemma_key_view(*key);
                }
                key.len() == 4 && bytes_eq(&key[0], event_id) && bytes_eq(&key[1], ticket_type_id)
                    && bytes_eq(&key[2], ticket_stage_id)
            };
            if hit {
                count = count + 1;
            }
        }
        count
    }
}

} // verus!