//! Admin lifecycle, the issuance two-phase, views and settings.

use ticketing::DomainEvent;
use ticketing::EventArgs;
use ticketing::Payment;
use ticketing::TicketStageArgs;
use ticketing::TicketTypeArgs;
use ticketing::Ticketing;
use ticketing::TicketingError;
use ticketing::NFT_ISSUE_COST;

fn b(s: &str) -> Vec<u8> {
    s.as_bytes().to_vec()
}

fn usdc(amount: u128) -> Payment {
    Payment { token: b("USDC-1"), nonce: 0, amount }
}

fn args() -> EventArgs {
    EventArgs {
        max_capacity: 10,
        max_per_user: 0,
        has_kyc: false,
        refund_policy: false,
        append_number: false,
        bot_protection: false,
    }
}

fn type_args(id: &str) -> TicketTypeArgs {
    TicketTypeArgs {
        base_name: b("GA"),
        image: b("img://ga"),
        royalties: 250,
        id: b(id),
        max_per_user: 3,
        mint_limit: 10,
    }
}

fn stage_args(id: &str) -> TicketStageArgs {
    TicketStageArgs {
        prices: vec![usdc(100)],
        id: b(id),
        has_whitelist: false,
        max_per_user: 0,
        mint_limit: 5,
        start_time: 0,
        end_time: 0,
        active: true,
    }
}

fn confirmed(token: &str) -> Ticketing {
    let mut t = Ticketing::init(1000).unwrap();
    let req = t.create_event(&b("ev"), b("Gala"), b("GALA"), args(), NFT_ISSUE_COST).unwrap();
    t.issue_callback(&b("ev"), req.args, Ok(b(token)), 0);
    t
}

#[test]
fn init_rejects_fee_at_the_denominator() {
    assert_eq!(Ticketing::init(10_000).err(), Some(TicketingError::InvalidFee));
    assert!(Ticketing::init(9_999).is_ok());
}

#[test]
fn create_event_demands_the_exact_issue_cost() {
    let mut t = Ticketing::init(1000).unwrap();
    let r = t.create_event(&b("ev"), b("Gala"), b("GALA"), args(), NFT_ISSUE_COST - 1);
    assert!(matches!(r, Err(TicketingError::InvalidIssuePayment)));
    let r = t.create_event(&b("ev"), b("Gala"), b("GALA"), args(), NFT_ISSUE_COST);
    assert!(r.is_ok());
    let r = t.create_event(&b("ev"), b("Other"), b("OTH"), args(), NFT_ISSUE_COST);
    assert!(matches!(r, Err(TicketingError::EventIdInUse)));
}

#[test]
fn failed_issuance_rolls_back_and_refunds_in_full() {
    let mut t = Ticketing::init(1000).unwrap();
    let _ = t.create_event(&b("ev"), b("Gala"), b("GALA"), args(), NFT_ISSUE_COST).unwrap();
    let refund = t.issue_callback(&b("ev"), args(), Err(()), NFT_ISSUE_COST).unwrap();
    assert_eq!(refund.amount, NFT_ISSUE_COST);
    assert_eq!(refund.token, b("EGLD"));
    assert_eq!(refund.nonce, 0);
    // no event record was left behind and the id is free again
    assert!(t.does_event_exists(&b("ev")).is_err());
    assert_eq!(t.get_events().unwrap().len(), 0);
    assert!(t.create_event(&b("ev"), b("Gala"), b("GALA"), args(), NFT_ISSUE_COST).is_ok());
}

#[test]
fn confirmed_issuance_creates_the_event_record() {
    let t = confirmed("GALA-abcdef");
    let ev = t.does_event_exists(&b("ev")).unwrap();
    assert_eq!(ev.token, b("GALA-abcdef"));
    assert_eq!(ev.id, b("ev"));
    assert_eq!(ev.mint_count, 0);
    assert_eq!(ev.max_capacity, 10);
    assert!(!ev.transfer_role);
    let listed = t.get_events().unwrap();
    assert_eq!(listed.len(), 1);
    assert_eq!(listed[0].id, b("ev"));
}

#[test]
fn create_type_round_trips_its_arguments() {
    let mut t = confirmed("GALA-abcdef");
    t.create_ticket_type(&b("ev"), &type_args("vip")).unwrap();
    let ty = t.does_ticket_type_exists(&b("ev"), &b("vip")).unwrap();
    assert_eq!(ty.base_name, b("GA"));
    assert_eq!(ty.image, b("img://ga"));
    assert_eq!(ty.royalties, 250);
    assert_eq!(ty.id, b("vip"));
    assert_eq!(ty.max_per_user, 3);
    assert_eq!(ty.mint_limit, 10);
    assert_eq!(ty.mint_count, 0);
}

#[test]
fn duplicate_ids_are_refused() {
    let mut t = confirmed("GALA-abcdef");
    t.create_ticket_type(&b("ev"), &type_args("vip")).unwrap();
    assert_eq!((
        t.create_ticket_type(&b("ev"), &type_args("vip"))).err(), Some(TicketingError::TypeIdInUse));
    t.create_ticket_stage(&b("ev"), &b("vip"), &stage_args("s1")).unwrap();
    assert_eq!((
        t.create_ticket_stage(&b("ev"), &b("vip"), &stage_args("s1"))).err(), Some(TicketingError::StageIdInUse));
}

#[test]
fn views_are_idempotent_without_mutation() {
    let mut t = confirmed("GALA-abcdef");
    t.create_ticket_type(&b("ev"), &type_args("vip")).unwrap();
    t.create_ticket_type(&b("ev"), &type_args("ga")).unwrap();
    t.create_ticket_stage(&b("ev"), &b("vip"), &stage_args("s1")).unwrap();
    let a1 = t.get_types(&b("ev"));
    let a2 = t.get_types(&b("ev"));
    assert_eq!(a1.len(), a2.len());
    for (x, y) in a1.iter().zip(a2.iter()) {
        assert_eq!(x.id, y.id);
        assert_eq!(x.base_name, y.base_name);
        assert_eq!(x.mint_count, y.mint_count);
    }
    let s1 = t.get_all_stages(&b("ev"));
    let s2 = t.get_all_stages(&b("ev"));
    assert_eq!(s1.len(), s2.len());
    assert_eq!(s1.len(), 1);
    assert_eq!(s1[0].id, s2[0].id);
    let e1 = t.get_events().unwrap();
    let e2 = t.get_events().unwrap();
    assert_eq!(e1.len(), e2.len());
    assert_eq!(e1[0].id, e2[0].id);
}

#[test]
fn listings_follow_creation_order() {
    let mut t = confirmed("GALA-abcdef");
    t.create_ticket_type(&b("ev"), &type_args("vip")).unwrap();
    t.create_ticket_type(&b("ev"), &type_args("ga")).unwrap();
    let types = t.get_types(&b("ev"));
    assert_eq!(types.len(), 2);
    assert_eq!(types[0].id, b("vip"));
    assert_eq!(types[1].id, b("ga"));
    t.create_ticket_stage(&b("ev"), &b("vip"), &stage_args("s1")).unwrap();
    t.create_ticket_stage(&b("ev"), &b("ga"), &stage_args("s2")).unwrap();
    t.create_ticket_stage(&b("ev"), &b("vip"), &stage_args("s3")).unwrap();
    let vip_stages = t.get_type_stages(&b("ev"), &b("vip"));
    assert_eq!(vip_stages.len(), 2);
    assert_eq!(vip_stages[0].id, b("s1"));
    assert_eq!(vip_stages[1].id, b("s3"));
    // grouped by type order, then stage order
    let all = t.get_all_stages(&b("ev"));
    assert_eq!(all.len(), 3);
    assert_eq!(all[0].id, b("s1"));
    assert_eq!(all[1].id, b("s3"));
    assert_eq!(all[2].id, b("s2"));
}

#[test]
fn edits_replace_fields_but_keep_identity_and_counts() {
    let mut t = confirmed("GALA-abcdef");
    t.create_ticket_type(&b("ev"), &type_args("vip")).unwrap();
    let mut edited = type_args("vip");
    edited.base_name = b("VIP Gold");
    edited.mint_limit = 7;
    t.edit_ticket_type(&b("ev"), &edited).unwrap();
    let ty = t.does_ticket_type_exists(&b("ev"), &b("vip")).unwrap();
    assert_eq!(ty.base_name, b("VIP Gold"));
    assert_eq!(ty.mint_limit, 7);
    assert_eq!(ty.mint_count, 0);
    let mut eargs = args();
    eargs.max_capacity = 42;
    t.edit_event(&b("ev"), eargs).unwrap();
    let ev = t.does_event_exists(&b("ev")).unwrap();
    assert_eq!(ev.max_capacity, 42);
    assert_eq!(ev.token, b("GALA-abcdef"));
    t.create_ticket_stage(&b("ev"), &b("vip"), &stage_args("s1")).unwrap();
    let mut sargs = stage_args("s1");
    sargs.active = false;
    sargs.mint_limit = 9;
    t.edit_ticket_stage(&b("ev"), &b("vip"), &sargs).unwrap();
    let st = t.is_ticket_stage_valid(&b("ev"), &b("vip"), &b("s1")).unwrap();
    assert!(!st.active);
    assert_eq!(st.mint_limit, 9);
    assert_eq!(st.ticket_type_id, b("vip"));
}

#[test]
fn removing_a_type_cascades_to_its_stages() {
    let mut t = confirmed("GALA-abcdef");
    t.create_ticket_type(&b("ev"), &type_args("vip")).unwrap();
    t.create_ticket_type(&b("ev"), &type_args("ga")).unwrap();
    t.create_ticket_stage(&b("ev"), &b("vip"), &stage_args("s1")).unwrap();
    t.create_ticket_stage(&b("ev"), &b("ga"), &stage_args("s2")).unwrap();
    t.remove_ticket_type(&b("ev"), &b("vip")).unwrap();
    assert!(t.does_ticket_type_exists(&b("ev"), &b("vip")).is_err());
    assert!(t.is_ticket_stage_valid(&b("ev"), &b("vip"), &b("s1")).is_err());
    // the sibling type and its stage survive
    assert!(t.does_ticket_type_exists(&b("ev"), &b("ga")).is_ok());
    assert!(t.is_ticket_stage_valid(&b("ev"), &b("ga"), &b("s2")).is_ok());
    // the id can be used again
    assert!(t.create_ticket_type(&b("ev"), &type_args("vip")).is_ok());
}

#[test]
fn removing_a_stage_leaves_its_type() {
    let mut t = confirmed("GALA-abcdef");
    t.create_ticket_type(&b("ev"), &type_args("vip")).unwrap();
    t.create_ticket_stage(&b("ev"), &b("vip"), &stage_args("s1")).unwrap();
    t.remove_ticket_stage(&b("ev"), &b("vip"), &b("s1")).unwrap();
    assert!(t.is_ticket_stage_valid(&b("ev"), &b("vip"), &b("s1")).is_err());
    assert!(t.does_ticket_type_exists(&b("ev"), &b("vip")).is_ok());
    // removing an absent stage is a quiet no-op
    assert!(t.remove_ticket_stage(&b("ev"), &b("vip"), &b("s1")).is_ok());
}

#[test]
fn set_cut_fees_guards_the_denominator() {
    let mut t = confirmed("GALA-abcdef");
    assert_eq!((t.set_cut_fees(10_000)).err(), Some(TicketingError::InvalidFee));
    assert!(t.set_cut_fees(250).is_ok());
    assert_eq!(t.fees(), 250);
}

#[test]
fn trading_control_decides_and_callback_applies() {
    let mut t = confirmed("GALA-abcdef");
    let sc = b("contract-address");
    // unknown event has no token
    assert!(matches!(
        t.trading_control(&b("nope"), &None, &sc),
        Err(TicketingError::TokenMissing)
    ));
    let d = t.trading_control(&b("ev"), &Some(b("wallet-1")), &sc).unwrap();
    assert!(!d.unset);
    assert_eq!(d.wallet, b("wallet-1"));
    assert_eq!(d.token, b("GALA-abcdef"));
    // the host grants the role and reports back
    t.transfer_role_callback(&b("ev"), false, &b("wallet-1"), true).unwrap();
    assert!(t.does_event_exists(&b("ev")).unwrap().transfer_role);
    // now the same wallet would be revoked
    let d = t.trading_control(&b("ev"), &Some(b("wallet-1")), &sc).unwrap();
    assert!(d.unset);
    t.transfer_role_callback(&b("ev"), true, &b("wallet-1"), true).unwrap();
    assert!(!t.does_event_exists(&b("ev")).unwrap().transfer_role);
    // a failed host call changes nothing
    t.transfer_role_callback(&b("ev"), false, &b("wallet-1"), false).unwrap();
    assert!(!t.does_event_exists(&b("ev")).unwrap().transfer_role);
}

#[test]
fn the_log_records_what_happened() {
    let mut t = confirmed("GALA-abcdef");
    t.create_ticket_type(&b("ev"), &type_args("vip")).unwrap();
    let n = t.log_len();
    assert!(n >= 2);
    assert!(matches!(t.log_at(0), DomainEvent::EventUpserted { .. }));
    match t.log_at(n - 1) {
        DomainEvent::TicketTypeUpserted { event_id, type_id, ticker } => {
            assert_eq!(event_id, &b("ev"));
            assert_eq!(type_id, &b("vip"));
            assert_eq!(ticker, &b("GALA-abcdef"));
        },
        _ => panic!("expected a ticket type record"),
    }
}

#[test]
fn lowering_a_limit_below_the_count_stops_further_sales() {
    // an admin may edit a limit below the running count; the record then
    // shows the lowered ceiling and every further purchase is sold out
    let mut t = confirmed("GALA-abcdef");
    t.create_ticket_type(&b("ev"), &type_args("vip")).unwrap();
    t.create_ticket_stage(&b("ev"), &b("vip"), &stage_args("s1")).unwrap();
    t.buy(
        &b("ev"),
        &b("vip"),
        &b("s1"),
        2,
        &b("alice"),
        50,
        &usdc(200),
        &None,
        &None,
        false,
        None,
    )
    .unwrap();
    let mut lowered = type_args("vip");
    lowered.mint_limit = 1;
    t.edit_ticket_type(&b("ev"), &lowered).unwrap();
    let ty = t.does_ticket_type_exists(&b("ev"), &b("vip")).unwrap();
    assert_eq!(ty.mint_count, 2);
    assert_eq!(ty.mint_limit, 1);
    let r = t.buy(
        &b("ev"),
        &b("vip"),
        &b("s1"),
        1,
        &b("alice"),
        50,
        &usdc(100),
        &None,
        &None,
        false,
        None,
    );
    assert_eq!(r.err(), Some(TicketingError::SoldOut(ticketing::Tier::Type)));
}

#[test]
fn collection_views_report_the_issued_token() {
    let t = confirmed("GALA-abcdef");
    assert!(t.has_collection(&b("GALA-abcdef")));
    assert!(!t.has_collection(&b("OTHER-1")));
    assert_eq!(t.token_by_event_id(&b("ev")).unwrap(), b("GALA-abcdef"));
    assert!(t.token_by_event_id(&b("nope")).is_none());
    // the nonce counter starts at one and advances with each minted unit
    assert_eq!(t.get_next_nonce(&b("GALA-abcdef")), 1);
    assert_eq!(t.get_next_nonce(&b("OTHER-1")), 0);
}
