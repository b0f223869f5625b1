//! Domain events.
//!
//! The host's log transport is out of scope; the engine records every
//! emitted domain event in an in-memory, append-only log, so that contracts
//! can state exactly what each operation announces.

use vstd::prelude::*;

use crate::bytes::clone_bytes;
use crate::storage::clone_key;
use crate::storage::k1;
use crate::structs::Event;
use crate::structs::TicketStage;
use crate::structs::TicketType;
use crate::ticketing::StateV;
use crate::ticketing::Ticketing;

verus! {

/// A record the engine announces to the outside world.
pub enum DomainEvent {
    /// Whitelist entries were added or removed.
    WhitelistChanged { wallets: Vec<Vec<u8>> },
    /// An event record was created or edited.
    EventUpserted { event_id: Vec<u8>, token: Vec<u8> },
    /// A ticket type was created or edited.
    TicketTypeUpserted { event_id: Vec<u8>, type_id: Vec<u8>, ticker: Vec<u8> },
    /// A ticket stage was created or edited.
    TicketStageUpserted { event_id: Vec<u8>, stage_id: Vec<u8>, ticker: Vec<u8> },
    /// A ticket type was removed.
    TicketTypeRemoved { event_id: Vec<u8>, type_id: Vec<u8>, ticker: Vec<u8> },
    /// A ticket stage was removed.
    TicketStageRemoved { event_id: Vec<u8>, stage_id: Vec<u8>, ticker: Vec<u8> },
    /// Units were minted under a stage; `sold_out` reports whether the mint
    /// drove the event to exactly its capacity.
    StageMint { event_id: Vec<u8>, type_id: Vec<u8>, stage_id: Vec<u8>, sold_out: bool },
    /// Units were minted with no stage context.
    TypeMint { event_id: Vec<u8>, type_id: Vec<u8>, sold_out: bool },
    /// A purchase settled.
    Buy {
        buyer: Vec<u8>,
        payment_token: Vec<u8>,
        unit_price: u128,
        ticker: Vec<u8>,
        external_id: Vec<u8>,
        timestamp: u64,
    },
}

/// The view of a `DomainEvent`.
pub ghost enum DomainEventV {
    WhitelistChanged { wallets: Seq<Seq<u8>> },
    EventUpserted { event_id: Seq<u8>, token: Seq<u8> },
    TicketTypeUpserted { event_id: Seq<u8>, type_id: Seq<u8>, ticker: Seq<u8> },
    TicketStageUpserted { event_id: Seq<u8>, stage_id: Seq<u8>, ticker: Seq<u8> },
    TicketTypeRemoved { event_id: Seq<u8>, type_id: Seq<u8>, ticker: Seq<u8> },
    TicketStageRemoved { event_id: Seq<u8>, stage_id: Seq<u8>, ticker: Seq<u8> },
    StageMint { event_id: Seq<u8>, type_id: Seq<u8>, stage_id: Seq<u8>, sold_out: bool },
    TypeMint { event_id: Seq<u8>, type_id: Seq<u8>, sold_out: bool },
    Buy {
        buyer: Seq<u8>,
        payment_token: Seq<u8>,
        unit_price: u128,
        ticker: Seq<u8>,
        external_id: Seq<u8>,
        timestamp: u64,
    },
}

impl DeepView for DomainEvent {
    type V = DomainEventV;

    open spec fn deep_view(&self) -> DomainEventV {
        self.view()
    }
}

impl View for DomainEvent {
    type V = DomainEventV;

    open spec fn view(&self) -> DomainEventV {
        match self {
            DomainEvent::WhitelistChanged { wallets } => DomainEventV::WhitelistChanged {
                wallets: wallets.deep_view(),
            },
            DomainEvent::EventUpserted { event_id, token } => DomainEventV::EventUpserted {
                event_id: event_id@,
                token: token@,
            },
            DomainEvent::TicketTypeUpserted { event_id, type_id, ticker } => DomainEventV::TicketTypeUpserted {
                event_id: event_id@,
                type_id: type_id@,
                ticker: ticker@,
            },
            DomainEvent::TicketStageUpserted { event_id, stage_id, ticker } => DomainEventV::TicketStageUpserted {
                event_id: event_id@,
                stage_id: stage_id@,
                ticker: ticker@,
            },
            DomainEvent::TicketTypeRemoved { event_id, type_id, ticker } => DomainEventV::TicketTypeRemoved {
                event_id: event_id@,
                type_id: type_id@,
                ticker: ticker@,
            },
            DomainEvent::TicketStageRemoved { event_id, stage_id, ticker } => DomainEventV::TicketStageRemoved {
                event_id: event_id@,
                stage_id: stage_id@,
                ticker: ticker@,
            },
            DomainEvent::StageMint { event_id, type_id, stage_id, sold_out } => DomainEventV::StageMint {
                event_id: event_id@,
                type_id: type_id@,
                stage_id: stage_id@,
                sold_out: *sold_out,
            },
            DomainEvent::TypeMint { event_id, type_id, sold_out } => DomainEventV::TypeMint {
                event_id: event_id@,
                type_id: type_id@,
                sold_out: *sold_out,
            },
            DomainEvent::Buy { buyer, payment_token, unit_price, ticker, external_id, timestamp } => DomainEventV::Buy {
                buyer: buyer@,
                payment_token: payment_token@,
                unit_price: *unit_price,
                ticker: ticker@,
                external_id: external_id@,
                timestamp: *timestamp,
            },
        }
    }
}

impl Ticketing {
    /// Appends one record to the domain event log.
    fn push_log(&mut self, ev: DomainEvent)
        ensures
            final(self)@ == (StateV { log: old(self)@.log.push(ev@), ..old(self)@ }),
    {
        let ghost pre = self.log.deep_view();
        let ghost evv = ev@;
        self.log.push(ev);
        proof {
            assert forall|j: int| 0 <= j < pre.len() implies self.log.deep_view()[j] == pre[j] by {
                assert(self.log.deep_view()[j] == self.log@[j].deep_view());
            }
            assert(self.log.deep_view()[pre.len() as int] == self.log@[pre.len() as int].deep_view());
            assert(self.log.deep_view() =~= pre.push(evv));
        }
    }

    /// The log record at `i`.
    pub fn log_at(&self, i: usize) -> (r: &DomainEvent)
        requires
            i < self@.log.len(),
        ensures
            r@ == self@.log[i as int],
    {
        &self.log[i]
    }

    /// The ticker announced for `event_id`: its issued token, or empty while
    /// none is issued.
    pub fn lookup_ticker(&self, event_id: &Vec<u8>) -> (r: Vec<u8>)
        ensures
            r@ == self@.ticker_of(event_id@),
    {
        let key = k1(event_id);
        match self.token_manager.find(&key) {
            Some(i) => clone_bytes(self.token_manager.val_at(i)),
            None => {
                let r: Vec<u8> = Vec::new();
                proof {
                    assert(r@ =~= Seq::<u8>::empty());
                }
                r
            },
        }
    }

    /// Announces a whitelist change.
    pub fn emit_whitelist_event(&mut self, wallets: &Vec<Vec<u8>>)
        ensures
            final(self)@ == (StateV {
                log: old(self)@.log.push(
                    DomainEventV::WhitelistChanged { wallets: wallets.deep_view() },
                ),
                ..old(self)@
            }),
    {
        self.push_log(DomainEvent::WhitelistChanged { wallets: clone_key(wallets) });
    }

    /// Announces a created or edited event record.
    pub fn emit_event(&mut self, event: &Event)
        ensures
            final(self)@ == (StateV {
                log: old(self)@.log.push(
                    DomainEventV::EventUpserted { event_id: event.id@, token: event.token@ },
                ),
                ..old(self)@
            }),
    {
        self.push_log(
            DomainEvent::EventUpserted {
                event_id: clone_bytes(&event.id),
                token: clone_bytes(&event.token),
            },
        );
    }

    /// Announces a created or edited ticket type.
    pub fn emit_ticket_type(&mut self, ticket_type: &TicketType, event_id: &Vec<u8>)
        ensures
            final(self)@ == (StateV {
                log: old(self)@.log.push(
                    DomainEventV::TicketTypeUpserted {
                        event_id: event_id@,
                        type_id: ticket_type.id@,
                        ticker: old(self)@.ticker_of(event_id@),
                    },
                ),
                ..old(self)@
            }),
    {
        let ticker = self.lookup_ticker(event_id);
        self.push_log(
            DomainEvent::TicketTypeUpserted {
                event_id: clone_bytes(event_id),
                type_id: clone_bytes(&ticket_type.id),
                ticker,
            },
        );
    }

    /// Announces a created or edited ticket stage.
    pub fn emit_ticket_stage(&mut self, ticket_stage: &TicketStage, event_id: &Vec<u8>)
        ensures
            final(self)@ == (StateV {
                log: old(self)@.log.push(
                    DomainEventV::TicketStageUpserted {
                        event_id: event_id@,
                        stage_id: ticket_stage.id@,
                        ticker: old(self)@.ticker_of(event_id@),
                    },
                ),
                ..old(self)@
            }),
    {
        let ticker = self.lookup_ticker(event_id);
        self.push_log(
            DomainEvent::TicketStageUpserted {
                event_id: clone_bytes(event_id),
                stage_id: clone_bytes(&ticket_stage.id),
                ticker,
            },
        );
    }

    /// Announces a removed ticket type.
    pub fn emit_remove_ticket_type(&mut self, event_id: &Vec<u8>, ticket_type_id: &Vec<u8>)
        ensures
            final(self)@ == (StateV {
                log: old(self)@.log.push(
                    DomainEventV::TicketTypeRemoved {
                        event_id: event_id@,
                        type_id: ticket_type_id@,
                        ticker: old(self)@.ticker_of(event_id@),
                    },
                ),
                ..old(self)@
            }),
    {
        let ticker = self.lookup_ticker(event_id);
        self.push_log(
            DomainEvent::TicketTypeRemoved {
                event_id: clone_bytes(event_id),
                type_id: clone_bytes(ticket_type_id),
                ticker,
            },
        );
    }

    /// Announces a removed ticket stage.
    pub fn emit_remove_ticket_stage(&mut self, event_id: &Vec<u8>, ticket_stage: TicketStage)
        ensures
            final(self)@ == (StateV {
                log: old(self)@.log.push(
                    DomainEventV::TicketStageRemoved {
                        event_id: event_id@,
                        stage_id: ticket_stage.id@,
                        ticker: old(self)@.ticker_of(event_id@),
                    },
                ),
                ..old(self)@
            }),
    {
        let ticker = self.lookup_ticker(event_id);
        self.push_log(
            DomainEvent::TicketStageRemoved {
                event_id: clone_bytes(event_id),
                stage_id: ticket_stage.id,
                ticker,
            },
        );
    }

    /// Announces minted units under a stage.
    pub fn emit_stage_mint(
        &mut self,
        ticket_type: &TicketType,
        ticket_stage: &TicketStage,
        event: &Event,
        is_global_sold_out: bool,
    )
        ensures
            final(self)@ == (StateV {
                log: old(self)@.log.push(
                    DomainEventV::StageMint {
                        event_id: event.id@,
                        type_id: ticket_type.id@,
                        stage_id: ticket_stage.id@,
                        sold_out: is_global_sold_out,
                    },
                ),
                ..old(self)@
            }),
    {
        self.push_log(
            DomainEvent::StageMint {
                event_id: clone_bytes(&event.id),
                type_id: clone_bytes(&ticket_type.id),
                stage_id: clone_bytes(&ticket_stage.id),
                sold_out: is_global_sold_out,
            },
        );
    }

    /// Announces minted units with no stage context.
    pub fn emit_type_mint(&mut self, ticket_type: &TicketType, event: &Event, is_global_sold_out: bool)
        ensures
            final(self)@ == (StateV {
                log: old(self)@.log.push(
                    DomainEventV::TypeMint {
                        event_id: event.id@,
                        type_id: ticket_type.id@,
                        sold_out: is_global_sold_out,
                    },
                ),
                ..old(self)@
            }),
    {
        self.push_log(
            DomainEvent::TypeMint {
                event_id: clone_bytes(&event.id),
                type_id: clone_bytes(&ticket_type.id),
                sold_out: is_global_sold_out,
            },
        );
    }

    /// Announces a settled purchase, stamped with the host clock.
    pub fn emit_buy(
        &mut self,
        payment_token: &Vec<u8>,
        buyer: &Vec<u8>,
        price: u128,
        ticker: &Vec<u8>,
        external_id: &Vec<u8>,
        timestamp: u64,
    )
        ensures
            final(self)@ == (StateV {
                log: old(self)@.log.push(
                    DomainEventV::Buy {
                        buyer: buyer@,
                        payment_token: payment_token@,
                        unit_price: price,
                        ticker: ticker@,
                        external_id: external_id@,
                        timestamp: timestamp,
                    },
                ),
                ..old(self)@
            }),
    {
        self.push_log(
            DomainEvent::Buy {
                buyer: clone_bytes(buyer),
                payment_token: clone_bytes(payment_token),
                unit_price: price,
                ticker: clone_bytes(ticker),
                external_id: clone_bytes(external_id),
                timestamp,
            },
        );
    }
}

} // verus!
