//! The two giveaway paths: free batch giveaways and the signature-gated
//! admin giveaway.

use ticketing::DomainEvent;
use ticketing::EventArgs;
use ticketing::Payment;
use ticketing::TicketStageArgs;
use ticketing::TicketTypeArgs;
use ticketing::Ticketing;
use ticketing::TicketingError;
use ticketing::Tier;
use ticketing::NFT_ISSUE_COST;

fn b(s: &str) -> Vec<u8> {
    s.as_bytes().to_vec()
}

fn usdc(amount: u128) -> Payment {
    Payment { token: b("USDC-1"), nonce: 0, amount }
}

fn setup() -> Ticketing {
    let mut t = Ticketing::init(1000).unwrap();
    let req = t
        .create_event(
            &b("ev"),
            b("Gala"),
            b("GALA"),
            EventArgs {
                max_capacity: 10,
                max_per_user: 2,
                has_kyc: false,
                refund_policy: false,
                append_number: true,
                bot_protection: false,
            },
            NFT_ISSUE_COST,
        )
        .unwrap();
    t.issue_callback(&b("ev"), req.args, Ok(b("GALA-abcdef")), 0);
    t.create_ticket_type(
        &b("ev"),
        &TicketTypeArgs {
            base_name: b("GA #"),
            image: b("img"),
            royalties: 0,
            id: b("ga"),
            max_per_user: 2,
            mint_limit: 8,
        },
    )
    .unwrap();
    t.create_ticket_stage(
        &b("ev"),
        &b("ga"),
        &TicketStageArgs {
            prices: vec![usdc(100)],
            id: b("s1"),
            has_whitelist: false,
            max_per_user: 2,
            mint_limit: 8,
            start_time: 0,
            end_time: 0,
            active: true,
        },
    )
    .unwrap();
    t
}

#[test]
fn giveaway_mints_to_each_recipient_in_turn() {
    let mut t = setup();
    let users = vec![(b("alice"), 2u32), (b("bob"), 3u32)];
    let payments = t.giveaway(&b("ev"), &b("ga"), &users, 77).unwrap();
    assert_eq!(payments.len(), 5);
    assert_eq!(payments[0].nonce, 1);
    assert_eq!(payments[4].nonce, 5);
    let ev = t.does_event_exists(&b("ev")).unwrap();
    assert_eq!(ev.mint_count, 5);
    let ty = t.does_ticket_type_exists(&b("ev"), &b("ga")).unwrap();
    assert_eq!(ty.mint_count, 5);
    assert_eq!(t.get_buys_per_event(&b("alice"), &b("ev")), 2);
    assert_eq!(t.get_buys_per_event(&b("bob"), &b("ev")), 3);
    // no stage context: the stage's count and counters stay untouched
    let st = t.is_ticket_stage_valid(&b("ev"), &b("ga"), &b("s1")).unwrap();
    assert_eq!(st.mint_count, 0);
    assert_eq!(t.get_buys_per_ticket_stage(&b("alice"), &b("ev"), &b("ga"), &b("s1")), 0);
    // each recipient got a zero-price purchase record
    let n = t.log_len();
    match t.log_at(n - 1) {
        DomainEvent::Buy { buyer, unit_price, payment_token, .. } => {
            assert_eq!(buyer, &b("bob"));
            assert_eq!(*unit_price, 0);
            assert_eq!(payment_token, &b("EGLD"));
        },
        _ => panic!("expected a purchase record"),
    }
}

#[test]
fn giveaway_ignores_per_user_caps() {
    // the free path only checks type and event capacity
    let mut t = setup();
    let users = vec![(b("alice"), 5u32)];
    assert!(t.giveaway(&b("ev"), &b("ga"), &users, 77).is_ok());
    assert_eq!(t.get_buys_per_event(&b("alice"), &b("ev")), 5);
}

#[test]
fn giveaway_that_oversells_changes_nothing() {
    let mut t = setup();
    // 5 + 4 would pass the type limit of 8 at the second recipient
    let users = vec![(b("alice"), 5u32), (b("bob"), 4u32)];
    assert_eq!((
        t.giveaway(&b("ev"), &b("ga"), &users, 77)).err(), Some(TicketingError::SoldOut(Tier::Type)));
    // nothing was minted for anyone
    let ev = t.does_event_exists(&b("ev")).unwrap();
    assert_eq!(ev.mint_count, 0);
    assert_eq!(t.get_buys_per_event(&b("alice"), &b("ev")), 0);
}

#[test]
fn giveaway_rejects_contract_recipients() {
    let mut t = setup();
    let mut sc = vec![0u8; 8];
    sc.extend_from_slice(&[9u8; 24]);
    let users = vec![(b("alice"), 1u32), (sc, 1u32)];
    assert_eq!((
        t.giveaway(&b("ev"), &b("ga"), &users, 77)).err(), Some(TicketingError::OnlyUserAccountsAllowed));
    assert_eq!(t.does_event_exists(&b("ev")).unwrap().mint_count, 0);
}

#[test]
fn giveaway_needs_existing_inventory() {
    let mut t = setup();
    let users = vec![(b("alice"), 1u32)];
    assert_eq!((
        t.giveaway(&b("nope"), &b("ga"), &users, 77)).err(), Some(TicketingError::EventNotFound));
    assert_eq!((
        t.giveaway(&b("ev"), &b("nope"), &users, 77)).err(), Some(TicketingError::TypeNotFound));
}

#[test]
fn giveaway_admin_runs_the_full_pipeline_without_payment() {
    let mut t = setup();
    let batch = t
        .giveaway_admin(
            &b("ev"),
            &b("ga"),
            &b("s1"),
            &b("alice"),
            2,
            &b("order-7"),
            50,
            &None,
            &None,
            false,
        )
        .unwrap();
    assert_eq!(batch.payments.len(), 2);
    assert_eq!(batch.names[0], b("GA #1"));
    // stage accounting applies on this path
    let st = t.is_ticket_stage_valid(&b("ev"), &b("ga"), &b("s1")).unwrap();
    assert_eq!(st.mint_count, 2);
    assert_eq!(t.get_buys_per_ticket_stage(&b("alice"), &b("ev"), &b("ga"), &b("s1")), 2);
    // and so do the per-user caps
    assert_eq!((
        t.giveaway_admin(
            &b("ev"),
            &b("ga"),
            &b("s1"),
            &b("alice"),
            1,
            &b("order-8"),
            50,
            &None,
            &None,
            false,
        )).err(), Some(TicketingError::LimitExceeded(Tier::Stage)));
    // the purchase record carries the external id
    let n = t.log_len();
    match t.log_at(n - 1) {
        DomainEvent::Buy { external_id, unit_price, .. } => {
            assert_eq!(external_id, &b("order-7"));
            assert_eq!(*unit_price, 0);
        },
        _ => panic!("expected a purchase record"),
    }
}
