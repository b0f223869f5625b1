//! The whitelist gate and the KYC / anti-bot identity gate.

use ticketing::EventArgs;
use ticketing::Payment;
use ticketing::TicketStageArgs;
use ticketing::TicketTypeArgs;
use ticketing::Ticketing;
use ticketing::TicketingError;
use ticketing::NFT_ISSUE_COST;

fn b(s: &str) -> Vec<u8> {
    s.as_bytes().to_vec()
}

fn alice() -> Vec<u8> {
    b("alice-wallet")
}

fn usdc(amount: u128) -> Payment {
    Payment { token: b("USDC-1"), nonce: 0, amount }
}

fn setup(has_kyc: bool, bot_protection: bool, has_whitelist: bool) -> Ticketing {
    let mut t = Ticketing::init(1000).unwrap();
    let req = t
        .create_event(
            &b("ev"),
            b("Gala"),
            b("GALA"),
            EventArgs {
                max_capacity: 10,
                max_per_user: 0,
                has_kyc,
                refund_policy: false,
                append_number: false,
                bot_protection,
            },
            NFT_ISSUE_COST,
        )
        .unwrap();
    t.issue_callback(&b("ev"), req.args, Ok(b("GALA-abcdef")), 0);
    t.create_ticket_type(
        &b("ev"),
        &TicketTypeArgs {
            base_name: b("GA"),
            image: b("img"),
            royalties: 0,
            id: b("vip"),
            max_per_user: 0,
            mint_limit: 10,
        },
    )
    .unwrap();
    t.create_ticket_stage(
        &b("ev"),
        &b("vip"),
        &TicketStageArgs {
            prices: vec![usdc(100)],
            id: b("s1"),
            has_whitelist,
            max_per_user: 0,
            mint_limit: 10,
            start_time: 0,
            end_time: 0,
            active: true,
        },
    )
    .unwrap();
    t
}

fn buy_with(
    t: &mut Ticketing,
    signature: Option<Vec<u8>>,
    data: Option<Vec<u8>>,
    sig_valid: bool,
) -> Result<ticketing::BuyOutcome, TicketingError> {
    t.buy(
        &b("ev"),
        &b("vip"),
        &b("s1"),
        2,
        &alice(),
        50,
        &usdc(200),
        &signature,
        &data,
        sig_valid,
        None,
    )
}

/// The payload a purchase of two by alice must carry: caller, event id,
/// type id, stage id, the quantity in decimal, and the mode tag.
fn payload(tag: &str) -> Vec<u8> {
    let mut p = Vec::new();
    p.extend_from_slice(b"alice-wallet");
    p.extend_from_slice(b"ev");
    p.extend_from_slice(b"vip");
    p.extend_from_slice(b"s1");
    p.extend_from_slice(b"2");
    p.extend_from_slice(tag.as_bytes());
    p
}

#[test]
fn whitelist_gate_rejects_then_accepts() {
    let mut t = setup(false, false, true);
    assert_eq!((
        buy_with(&mut t, None, None, false)).err(), Some(TicketingError::NotWhitelisted));
    t.add_to_whitelist(&b("ev"), &b("vip"), &b("s1"), &vec![alice()]).unwrap();
    assert!(t.is_whitelisted(&b("ev"), &b("vip"), &b("s1"), &alice()));
    assert!(buy_with(&mut t, None, None, false).is_ok());
}

#[test]
fn whitelist_removal_closes_the_gate_again() {
    let mut t = setup(false, false, true);
    t.add_to_whitelist(&b("ev"), &b("vip"), &b("s1"), &vec![alice(), b("bob")]).unwrap();
    assert_eq!(t.whitelisted_size(&b("ev"), &b("vip"), &b("s1")), 2);
    t.remove_from_whitelist(&b("ev"), &b("vip"), &b("s1"), &vec![alice()]).unwrap();
    assert_eq!(t.whitelisted_size(&b("ev"), &b("vip"), &b("s1")), 1);
    assert!(!t.is_whitelisted(&b("ev"), &b("vip"), &b("s1"), &alice()));
    assert_eq!((
        buy_with(&mut t, None, None, false)).err(), Some(TicketingError::NotWhitelisted));
}

#[test]
fn kyc_requires_payload_and_signature() {
    let mut t = setup(true, false, false);
    assert_eq!((
        buy_with(&mut t, None, None, true)).err(), Some(TicketingError::MissingPayload));
    assert_eq!((
        buy_with(&mut t, None, Some(payload("has_kyc")), true)).err(), Some(TicketingError::MissingSignature));
}

#[test]
fn kyc_accepts_only_the_exact_payload_with_a_valid_signature() {
    let mut t = setup(true, false, false);
    // wrong payload fails closed
    assert_eq!((
        buy_with(&mut t, Some(b("sig")), Some(payload("bot_protection")), true)).err(), Some(TicketingError::PayloadInvalid));
    // exact payload with a failed signature check fails closed
    assert_eq!((
        buy_with(&mut t, Some(b("sig")), Some(payload("has_kyc")), false)).err(), Some(TicketingError::SignatureInvalid));
    // exact payload with a verified signature passes
    assert!(buy_with(&mut t, Some(b("sig")), Some(payload("has_kyc")), true).is_ok());
}

#[test]
fn bot_protection_uses_its_own_tag() {
    let mut t = setup(false, true, false);
    assert_eq!((
        buy_with(&mut t, None, Some(payload("bot_protection")), true)).err(), Some(TicketingError::MissingSignature));
    assert_eq!((
        buy_with(&mut t, Some(b("sig")), Some(payload("has_kyc")), true)).err(), Some(TicketingError::PayloadInvalid));
    assert!(buy_with(&mut t, Some(b("sig")), Some(payload("bot_protection")), true).is_ok());
}

#[test]
fn no_gate_without_either_flag() {
    let mut t = setup(false, false, false);
    assert!(buy_with(&mut t, None, None, false).is_ok());
}
