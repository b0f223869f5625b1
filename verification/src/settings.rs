//! Settings: the platform fee rate and the transfer-role lifecycle.
//!
//! Granting or revoking a token's transfer role is an asynchronous host
//! call: `trading_control` decides what to ask the host for, and
//! `transfer_role_callback` folds the host's answer back into the state.

use vstd::prelude::*;

use crate::bytes::bytes_eq;
use crate::bytes::clone_bytes;
use crate::errors::TicketingError;
use crate::events::DomainEventV;
use crate::storage::kv_remove;
use crate::storage::kv_upsert;
use crate::storage::k1;
use crate::storage::k2;
use crate::storage::lemma_key_view;
use crate::storage::lemma_kv_remove;
use crate::storage::lemma_upsert;
use crate::structs::Event;
use crate::ticketing::ROYALTIES_MAX;
use crate::ticketing::StateV;
use crate::ticketing::Ticketing;
use crate::ticketing::lemma_record_ids;

verus! {

/// Whether any wallet holds the transfer role for event `e`.
pub open spec fn spec_has_transfer_wallet(kvs: Seq<(Seq<Seq<u8>>, ())>, e: Seq<u8>) -> bool {
    exists|i: int| 0 <= i < kvs.len() && (#[trigger] kvs[i]).0.len() == 2 && kvs[i].0[0] == e
}

/// The transfer-role confirmation: on a failed host call nothing changes;
/// on success the wallet is added to (or, when revoking, removed from) the
/// event's transfer set and the event record's `transfer_role` flag is
/// recomputed.
pub open spec fn spec_transfer_role_callback(
    s: StateV,
    event_id: Seq<u8>,
    status: bool,
    address: Seq<u8>,
    result_ok: bool,
) -> Result<StateV, TicketingError> {
    if !result_ok {
        Ok(s)
    } else if !s.has_event(event_id) {
        Err(TicketingError::EventNotFound)
    } else {
        let tw = if status {
            kv_remove(s.transfer_wallets, seq![event_id, address])
        } else {
            kv_upsert(s.transfer_wallets, seq![event_id, address], ())
        };
        let ev = s.event_of(event_id);
        let new_ev = crate::structs::EventV {
            transfer_role: spec_has_transfer_wallet(tw, event_id),
            ..ev
        };
        Ok(
            StateV {
                transfer_wallets: tw,
                event_by_id: kv_upsert(s.event_by_id, seq![event_id], new_ev),
                log: s.log.push(
                    DomainEventV::EventUpserted { event_id: event_id, token: ev.token },
                ),
                ..s
            },
        )
    }
}

/// What `trading_control` asks the host to do.
pub struct TradingDecision {
    /// Revoke the role (the wallet holds it) rather than grant it.
    pub unset: bool,
    /// The wallet the role change applies to.
    pub wallet: Vec<u8>,
    /// The event's issued token.
    pub token: Vec<u8>,
}

impl Ticketing {
    /// Sets the platform fee rate, in basis points under the denominator.
    pub fn set_cut_fees(&mut self, fees: u64) -> (r: Result<(), TicketingError>)
        requires
            old(self)@.inv(),
        ensures
            match r {
                Ok(()) => {
                    &&& fees < ROYALTIES_MAX
                    &&& final(self)@ == (StateV { fees: fees, ..old(self)@ })
                    &&& final(self)@.inv()
                },
                Err(er) => {
                    &&& er == TicketingError::InvalidFee
                    &&& fees >= ROYALTIES_MAX
                    &&& final(self)@ == old(self)@
                },
            },
    {
        if fees >= ROYALTIES_MAX {
            return Err(TicketingError::InvalidFee);
        }
        self.fees = fees;
        proof {
            assert(self@.inv_counters());
            assert(self@.inv_tokens());
            assert(self@.inv_types());
            assert(self@.inv_ids());
        }
        Ok(())
    }

    /// Decides a transfer-role change: the wallet is the given address, or
    /// the contract's own address when none is given; the role is revoked
    /// when that wallet already holds it and granted otherwise.  The host
    /// performs the call and reports back through `transfer_role_callback`.
    pub fn trading_control(
        &self,
        event_id: &Vec<u8>,
        address: &Option<Vec<u8>>,
        sc_address: &Vec<u8>,
    ) -> (r: Result<TradingDecision, TicketingError>)
        ensures
            match r {
                Ok(d) => {
                    &&& self@.has_token(event_id@)
                    &&& d.token@ == self@.token_of(event_id@)
                    &&& d.wallet@ == (match address {
                        Some(a) => a@,
                        None => sc_address@,
                    })
                    &&& d.unset == self@.transfer_listed(event_id@, d.wallet@)
                },
                Err(er) => {
                    &&& er == TicketingError::TokenMissing
                    &&& !self@.has_token(event_id@)
                },
            },
    {
        let tm_key = k1(event_id);
        let token = match self.token_manager.find(&tm_key) {
            Some(i) => clone_bytes(self.token_manager.val_at(i)),
            None => {
                return Err(TicketingError::TokenMissing);
            },
        };
        let wallet = match address {
            Some(a) => clone_bytes(a),
            None => clone_bytes(sc_address),
        };
        let tw_key = k2(event_id, &wallet);
        let unset = self.transfer_wallets.contains(&tw_key);
        Ok(TradingDecision { unset, wallet, token })
    }

    /// Whether any wallet holds the transfer role for the event.
    fn has_transfer_wallet(&self, event_id: &Vec<u8>) -> (r: bool)
        ensures
            r == spec_has_transfer_wallet(self@.transfer_wallets, event_id@),
    {
        let n = self.transfer_wallets.len();
        for i in 0..n
            invariant
                n == self@.transfer_wallets.len(),
                forall|j: int|
                    0 <= j < i ==> !((#[trigger] self@.transfer_wallets[j]).0.len() == 2
                        && self@.transfer_wallets[j].0[0] == event_id@),
        {
            let key = self.transfer_wallets.key_at(i);
            proof {
                lemma_key_view(*key);
            }
            if key.len() == 2 && bytes_eq(&key[0], event_id) {
                return true;
            }
        }
        false
    }

    /// Folds the host's transfer-role answer back into the state.
    pub fn transfer_role_callback(
        &mut self,
        event_id: &Vec<u8>,
        status: bool,
        address: &Vec<u8>,
        result_ok: bool,
    ) -> (r: Result<(), TicketingError>)
        requires
            old(self)@.inv(),
        ensures
            match r {
                Ok(()) => {
                    &&& spec_transfer_role_callback(
                        old(self)@,
                        event_id@,
                        status,
                        address@,
                        result_ok,
                    ) == Ok::<StateV, TicketingError>(final(self)@)
                    &&& final(self)@.inv()
                },
                Err(er) => {
                    &&& spec_transfer_role_callback(
                        old(self)@,
                        event_id@,
                        status,
                        address@,
                        result_ok,
                    ) == Err::<StateV, TicketingError>(er)
                    &&& final(self)@ == old(self)@
                },
            },
    {
        if !result_ok {
            return Ok(());
        }
        let old_rec = match self.does_event_exists(event_id) {
            Ok(e) => e,
            Err(er) => {
                return Err(er);
            },
        };
        let ghost pre = self@;
        let tw_key = k2(event_id, address);
        if status {
            let _ = self.transfer_wallets.remove(&tw_key);
            proof {
                lemma_kv_remove(pre.transfer_wallets, seq![event_id@, address@]);
            }
        } else {
            self.transfer_wallets.upsert(tw_key, ());
            proof {
                lemma_upsert(pre.transfer_wallets, seq![event_id@, address@], ());
            }
        }
        proof {
            assert(self@.inv_counters());
            assert(self@.inv_tokens());
            assert(self@.inv_types());
            assert(self@.inv_ids());
            lemma_record_ids(pre, event_id@, event_id@, event_id@);
        }
        let has = self.has_transfer_wallet(event_id);
        let record = Event { transfer_role: has, ..old_rec };
        self.emit_event(&record);
        self.set_event_record(record);
        Ok(())
    }
}

} // verus!