//! End-to-end purchase behaviour: the validation pipeline, payment
//! reconciliation, the identity gate, minting and income distribution.

use ticketing::EventArgs;
use ticketing::Payment;
use ticketing::TicketStageArgs;
use ticketing::TicketTypeArgs;
use ticketing::Ticketing;
use ticketing::TicketingError;
use ticketing::Tier;
use ticketing::NFT_ISSUE_COST;

fn b(s: &str) -> Vec<u8> {
    s.as_bytes().to_vec()
}

fn alice() -> Vec<u8> {
    b("alice-wallet")
}

fn usdc(amount: u128) -> Payment {
    Payment { token: b("USDC-1"), nonce: 0, amount }
}

fn event_args(max_capacity: u32, max_per_user: u32) -> EventArgs {
    EventArgs {
        max_capacity,
        max_per_user,
        has_kyc: false,
        refund_policy: false,
        append_number: true,
        bot_protection: false,
    }
}

/// An engine with one confirmed event, one type and one active stage.
fn setup(
    fees: u64,
    args: EventArgs,
    type_per_user: u32,
    type_limit: u32,
    stage_per_user: u32,
    stage_limit: u32,
    unit_price: u128,
) -> Ticketing {
    let mut t = Ticketing::init(fees).unwrap();
    let req = t
        .create_event(&b("ev"), b("Gala"), b("GALA"), args, NFT_ISSUE_COST)
        .unwrap();
    let refund = t.issue_callback(&b("ev"), req.args, Ok(b("GALA-abcdef")), 0);
    assert!(refund.is_none());
    t.create_ticket_type(
        &b("ev"),
        &TicketTypeArgs {
            base_name: b("VIP #"),
            image: b("img://vip"),
            royalties: 500,
            id: b("vip"),
            max_per_user: type_per_user,
            mint_limit: type_limit,
        },
    )
    .unwrap();
    t.create_ticket_stage(
        &b("ev"),
        &b("vip"),
        &TicketStageArgs {
            prices: vec![Payment { token: b("USDC-1"), nonce: 0, amount: unit_price }],
            id: b("s1"),
            has_whitelist: false,
            max_per_user: stage_per_user,
            mint_limit: stage_limit,
            start_time: 0,
            end_time: 0,
            active: true,
        },
    )
    .unwrap();
    t
}

fn plain_buy(t: &mut Ticketing, quantity: u32, amount: u128, now: u64) -> Result<ticketing::BuyOutcome, TicketingError> {
    t.buy(
        &b("ev"),
        &b("vip"),
        &b("s1"),
        quantity,
        &alice(),
        now,
        &usdc(amount),
        &None,
        &None,
        false,
        None,
    )
}

#[test]
fn successful_buy_advances_all_counts_atomically() {
    let mut t = setup(1000, event_args(10, 0), 0, 10, 0, 5, 100);
    let out = plain_buy(&mut t, 2, 200, 50).unwrap();
    assert_eq!(out.payments.len(), 2);
    assert_eq!(out.payments[0].nonce, 1);
    assert_eq!(out.payments[1].nonce, 2);
    assert_eq!(out.payments[0].token, b("GALA-abcdef"));
    assert_eq!(out.payments[0].amount, 1);
    let ev = t.does_event_exists(&b("ev")).unwrap();
    assert_eq!(ev.mint_count, 2);
    let ty = t.does_ticket_type_exists(&b("ev"), &b("vip")).unwrap();
    assert_eq!(ty.mint_count, 2);
    let st = t.is_ticket_stage_valid(&b("ev"), &b("vip"), &b("s1")).unwrap();
    assert_eq!(st.mint_count, 2);
    assert_eq!(t.get_buys_per_event(&alice(), &b("ev")), 2);
    assert_eq!(t.get_buys_per_ticket_type(&alice(), &b("ev"), &b("vip")), 2);
    assert_eq!(
        t.get_buys_per_ticket_stage(&alice(), &b("ev"), &b("vip"), &b("s1")),
        2
    );
}

#[test]
fn minted_names_append_sequential_nonces() {
    let mut t = setup(1000, event_args(10, 0), 0, 10, 0, 5, 100);
    let out = plain_buy(&mut t, 2, 200, 50).unwrap();
    assert_eq!(out.names[0], b("VIP #1"));
    assert_eq!(out.names[1], b("VIP #2"));
    let out2 = plain_buy(&mut t, 1, 100, 51).unwrap();
    assert_eq!(out2.names[0], b("VIP #3"));
    assert_eq!(out2.payments[0].nonce, 3);
}

#[test]
fn mint_counts_never_exceed_their_ceilings() {
    let mut t = setup(1000, event_args(10, 0), 0, 10, 0, 5, 100);
    let _ = plain_buy(&mut t, 5, 500, 50).unwrap();
    assert_eq!((plain_buy(&mut t, 1, 100, 50)).err(), Some(TicketingError::SoldOut(Tier::Stage)));
    let ev = t.does_event_exists(&b("ev")).unwrap();
    let ty = t.does_ticket_type_exists(&b("ev"), &b("vip")).unwrap();
    let st = t.is_ticket_stage_valid(&b("ev"), &b("vip"), &b("s1")).unwrap();
    assert!(st.mint_count <= st.mint_limit);
    assert!(ty.mint_count <= ty.mint_limit);
    assert!(ev.mint_count <= ev.max_capacity);
    assert_eq!(st.mint_count, 5);
}

#[test]
fn per_user_cap_boundary_is_exact() {
    // event capacity 10, type limit 10, stage limit 5, per-user cap 2 at
    // every tier: with the counter already at the cap, a purchase of two
    // more must fail, not succeed
    let mut t = setup(1000, event_args(10, 2), 2, 10, 2, 5, 100);
    assert!(plain_buy(&mut t, 2, 200, 50).is_ok());
    assert_eq!(t.get_buys_per_ticket_stage(&alice(), &b("ev"), &b("vip"), &b("s1")), 2);
    assert_eq!((
        plain_buy(&mut t, 2, 200, 50)).err(), Some(TicketingError::LimitExceeded(Tier::Stage)));
    // and one more unit is just as much over the cap
    assert_eq!((
        plain_buy(&mut t, 1, 100, 50)).err(), Some(TicketingError::LimitExceeded(Tier::Stage)));
}

#[test]
fn per_user_cap_of_four_allows_two_purchases_of_two() {
    let mut t = setup(1000, event_args(10, 4), 4, 10, 4, 5, 100);
    assert!(plain_buy(&mut t, 2, 200, 50).is_ok());
    assert_eq!(t.get_buys_per_event(&alice(), &b("ev")), 2);
    assert!(plain_buy(&mut t, 2, 200, 50).is_ok());
    assert_eq!(t.get_buys_per_event(&alice(), &b("ev")), 4);
    assert_eq!((
        plain_buy(&mut t, 2, 200, 50)).err(), Some(TicketingError::LimitExceeded(Tier::Stage)));
}

#[test]
fn stage_not_started_until_start_time_passes() {
    let mut t = Ticketing::init(1000).unwrap();
    let req = t
        .create_event(&b("ev"), b("Gala"), b("GALA"), event_args(10, 0), NFT_ISSUE_COST)
        .unwrap();
    t.issue_callback(&b("ev"), req.args, Ok(b("GALA-abcdef")), 0);
    t.create_ticket_type(
        &b("ev"),
        &TicketTypeArgs {
            base_name: b("GA"),
            image: b("img"),
            royalties: 0,
            id: b("vip"),
            max_per_user: 0,
            mint_limit: 10,
        },
    )
    .unwrap();
    let now: u64 = 1_000;
    t.create_ticket_stage(
        &b("ev"),
        &b("vip"),
        &TicketStageArgs {
            prices: vec![usdc(100)],
            id: b("s1"),
            has_whitelist: false,
            max_per_user: 0,
            mint_limit: 5,
            start_time: now + 100,
            end_time: 0,
            active: true,
        },
    )
    .unwrap();
    assert_eq!((plain_buy(&mut t, 1, 100, now)).err(), Some(TicketingError::NotStarted));
    assert!(plain_buy(&mut t, 1, 100, now + 101).is_ok());
}

#[test]
fn stage_ends_after_end_time() {
    let mut t = Ticketing::init(1000).unwrap();
    let req = t
        .create_event(&b("ev"), b("Gala"), b("GALA"), event_args(10, 0), NFT_ISSUE_COST)
        .unwrap();
    t.issue_callback(&b("ev"), req.args, Ok(b("GALA-abcdef")), 0);
    t.create_ticket_type(
        &b("ev"),
        &TicketTypeArgs {
            base_name: b("GA"),
            image: b("img"),
            royalties: 0,
            id: b("vip"),
            max_per_user: 0,
            mint_limit: 10,
        },
    )
    .unwrap();
    t.create_ticket_stage(
        &b("ev"),
        &b("vip"),
        &TicketStageArgs {
            prices: vec![usdc(100)],
            id: b("s1"),
            has_whitelist: false,
            max_per_user: 0,
            mint_limit: 5,
            start_time: 0,
            end_time: 500,
            active: true,
        },
    )
    .unwrap();
    assert!(plain_buy(&mut t, 1, 100, 500).is_ok());
    assert_eq!((plain_buy(&mut t, 1, 100, 501)).err(), Some(TicketingError::Ended));
}

#[test]
fn inactive_stage_rejects_purchases() {
    let mut t = Ticketing::init(1000).unwrap();
    let req = t
        .create_event(&b("ev"), b("Gala"), b("GALA"), event_args(10, 0), NFT_ISSUE_COST)
        .unwrap();
    t.issue_callback(&b("ev"), req.args, Ok(b("GALA-abcdef")), 0);
    t.create_ticket_type(
        &b("ev"),
        &TicketTypeArgs {
            base_name: b("GA"),
            image: b("img"),
            royalties: 0,
            id: b("vip"),
            max_per_user: 0,
            mint_limit: 10,
        },
    )
    .unwrap();
    t.create_ticket_stage(
        &b("ev"),
        &b("vip"),
        &TicketStageArgs {
            prices: vec![usdc(100)],
            id: b("s1"),
            has_whitelist: false,
            max_per_user: 0,
            mint_limit: 5,
            start_time: 0,
            end_time: 0,
            active: false,
        },
    )
    .unwrap();
    assert_eq!((plain_buy(&mut t, 1, 100, 50)).err(), Some(TicketingError::StageInactive));
}

#[test]
fn direct_payment_must_match_exactly() {
    let mut t = setup(1000, event_args(10, 0), 0, 10, 0, 5, 100);
    assert_eq!((plain_buy(&mut t, 3, 299, 50)).err(), Some(TicketingError::PaymentMismatch));
    assert_eq!((plain_buy(&mut t, 3, 301, 50)).err(), Some(TicketingError::PaymentMismatch));
    assert!(plain_buy(&mut t, 3, 300, 50).is_ok());
}

#[test]
fn unknown_payment_token_is_a_mismatch() {
    let mut t = setup(1000, event_args(10, 0), 0, 10, 0, 5, 100);
    let r = t.buy(
        &b("ev"),
        &b("vip"),
        &b("s1"),
        1,
        &alice(),
        50,
        &Payment { token: b("OTHER-1"), nonce: 0, amount: 100 },
        &None,
        &None,
        false,
        None,
    );
    assert_eq!((r).err(), Some(TicketingError::PaymentMismatch));
}

#[test]
fn zero_quantity_is_rejected() {
    let mut t = setup(1000, event_args(10, 0), 0, 10, 0, 5, 100);
    assert_eq!((plain_buy(&mut t, 0, 0, 50)).err(), Some(TicketingError::InvalidQuantity));
}

#[test]
fn missing_inventory_reports_the_most_specific_tier() {
    let mut t = setup(1000, event_args(10, 0), 0, 10, 0, 5, 100);
    let r = t.buy(&b("nope"), &b("vip"), &b("s1"), 1, &alice(), 50, &usdc(100), &None, &None, false, None);
    assert_eq!((r).err(), Some(TicketingError::EventNotFound));
    let r = t.buy(&b("ev"), &b("nope"), &b("s1"), 1, &alice(), 50, &usdc(100), &None, &None, false, None);
    assert_eq!((r).err(), Some(TicketingError::TypeNotFound));
    let r = t.buy(&b("ev"), &b("vip"), &b("nope"), 1, &alice(), 50, &usdc(100), &None, &None, false, None);
    assert_eq!((r).err(), Some(TicketingError::StageNotFound));
}

#[test]
fn swap_output_settles_with_surplus_refund() {
    let mut t = setup(1000, event_args(10, 0), 0, 10, 0, 5, 100);
    let out = t
        .buy(
            &b("ev"),
            &b("vip"),
            &b("s1"),
            3,
            &alice(),
            50,
            &Payment { token: b("WEGLD-1"), nonce: 0, amount: 1 },
            &None,
            &None,
            false,
            Some(usdc(350)),
        )
        .unwrap();
    let refund = out.refund.unwrap();
    assert_eq!(refund.amount, 50);
    assert_eq!(refund.token, b("USDC-1"));
    // the settled payment is the exact total: with a 10% fee the platform
    // takes 30 of 300 and the organizer accrues 270
    let fee = out.platform_fee.unwrap();
    assert_eq!(fee.amount, 30);
    let accrued = t.get_all_income_payments(&b("USDC-1")).unwrap();
    assert_eq!(accrued.amount, 270);
}

#[test]
fn swap_output_below_total_is_rejected() {
    let mut t = setup(1000, event_args(10, 0), 0, 10, 0, 5, 100);
    let r = t.buy(
        &b("ev"),
        &b("vip"),
        &b("s1"),
        3,
        &alice(),
        50,
        &Payment { token: b("WEGLD-1"), nonce: 0, amount: 1 },
        &None,
        &None,
        false,
        Some(usdc(299)),
    );
    assert_eq!((r).err(), Some(TicketingError::InsufficientSwapOutput));
}

#[test]
fn swap_output_of_unknown_token_is_rejected() {
    let mut t = setup(1000, event_args(10, 0), 0, 10, 0, 5, 100);
    let r = t.buy(
        &b("ev"),
        &b("vip"),
        &b("s1"),
        1,
        &alice(),
        50,
        &Payment { token: b("WEGLD-1"), nonce: 0, amount: 1 },
        &None,
        &None,
        false,
        Some(Payment { token: b("DAI-1"), nonce: 0, amount: 1000 }),
    );
    assert_eq!((r).err(), Some(TicketingError::SwapTokenInvalid));
}

#[test]
fn income_accrues_across_purchases() {
    let mut t = setup(1000, event_args(10, 0), 0, 10, 0, 5, 100);
    let out = plain_buy(&mut t, 2, 200, 50).unwrap();
    assert_eq!(out.platform_fee.unwrap().amount, 20);
    let _ = plain_buy(&mut t, 1, 100, 51).unwrap();
    let accrued = t.get_all_income_payments(&b("USDC-1")).unwrap();
    assert_eq!(accrued.amount, 180 + 90);
    let tokens = t.get_all_income_tokens();
    assert_eq!(tokens, vec![b("USDC-1")]);
}

#[test]
fn zero_fee_leaves_everything_to_the_organizer() {
    let mut t = setup(0, event_args(10, 0), 0, 10, 0, 5, 100);
    let out = plain_buy(&mut t, 1, 100, 50).unwrap();
    assert!(out.platform_fee.is_none());
    let accrued = t.get_all_income_payments(&b("USDC-1")).unwrap();
    assert_eq!(accrued.amount, 100);
}

#[test]
fn contract_accounts_cannot_receive_tickets() {
    let mut t = setup(1000, event_args(10, 0), 0, 10, 0, 5, 100);
    let mut sc = vec![0u8; 8];
    sc.extend_from_slice(&[7u8; 24]);
    assert_eq!(sc.len(), 32);
    let r = t.buy(&b("ev"), &b("vip"), &b("s1"), 1, &sc, 50, &usdc(100), &None, &None, false, None);
    assert_eq!((r).err(), Some(TicketingError::OnlyUserAccountsAllowed));
}

#[test]
fn failed_purchase_changes_nothing() {
    let mut t = setup(1000, event_args(10, 0), 0, 10, 0, 5, 100);
    let _ = plain_buy(&mut t, 1, 100, 50).unwrap();
    let before_log = t.log_len();
    assert!(plain_buy(&mut t, 1, 99, 50).is_err());
    let ev = t.does_event_exists(&b("ev")).unwrap();
    assert_eq!(ev.mint_count, 1);
    assert_eq!(t.get_buys_per_event(&alice(), &b("ev")), 1);
    assert_eq!(t.log_len(), before_log);
    assert!(t.get_all_income_payments(&b("USDC-1")).unwrap().amount == 90);
}

#[test]
fn duplicate_price_entries_resolve_to_the_first_match() {
    // stage designers should not configure two entries for the same token
    // and nonce; when they do, the first entry is authoritative
    let mut t = Ticketing::init(1000).unwrap();
    let req = t
        .create_event(&b("ev"), b("Gala"), b("GALA"), event_args(10, 0), NFT_ISSUE_COST)
        .unwrap();
    t.issue_callback(&b("ev"), req.args, Ok(b("GALA-abcdef")), 0);
    t.create_ticket_type(
        &b("ev"),
        &TicketTypeArgs {
            base_name: b("GA"),
            image: b("img"),
            royalties: 0,
            id: b("vip"),
            max_per_user: 0,
            mint_limit: 10,
        },
    )
    .unwrap();
    t.create_ticket_stage(
        &b("ev"),
        &b("vip"),
        &TicketStageArgs {
            prices: vec![usdc(100), usdc(250)],
            id: b("s1"),
            has_whitelist: false,
            max_per_user: 0,
            mint_limit: 5,
            start_time: 0,
            end_time: 0,
            active: true,
        },
    )
    .unwrap();
    assert_eq!((plain_buy(&mut t, 1, 250, 50)).err(), Some(TicketingError::PaymentMismatch));
    assert!(plain_buy(&mut t, 1, 100, 50).is_ok());
}
