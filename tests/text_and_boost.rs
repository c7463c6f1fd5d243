use livestream::boost::{boost_duration, confirm_payment, InvoiceNotice, InvoiceStatus, WebhookData, WebhookEvent};
use livestream::text::{decimal_string, join_path, parse_scaled, parse_u64};
use livestream::session::{Effect, Session};
use livestream::types::{BoostMessageInvoice, MessageExtra, Video, VideoStatus, WsPacket};

#[test]
fn decimal_rendering() {
    assert_eq!(decimal_string(0), "0");
    assert_eq!(decimal_string(7), "7");
    assert_eq!(decimal_string(48000), "48000");
    assert_eq!(decimal_string(u64::MAX), "18446744073709551615");
}

#[test]
fn unsigned_parsing() {
    assert_eq!(parse_u64("0"), Some(0));
    assert_eq!(parse_u64("1048576"), Some(1048576));
    assert_eq!(parse_u64("18446744073709551615"), Some(u64::MAX));
    assert_eq!(parse_u64("18446744073709551616"), None);
    assert_eq!(parse_u64(""), None);
    assert_eq!(parse_u64("12a"), None);
    assert_eq!(parse_u64("-1"), None);
    assert_eq!(parse_u64("+7"), Some(7));
    assert_eq!(parse_u64("+"), None);
    assert_eq!(parse_u64("++7"), None);
}

#[test]
fn scaled_parsing() {
    assert_eq!(parse_scaled("0.00005", 8), Some(5000));
    assert_eq!(parse_scaled("0.00005000", 8), Some(5000));
    assert_eq!(parse_scaled("1", 8), Some(100_000_000));
    assert_eq!(parse_scaled("63.541000", 3), Some(63541));
    assert_eq!(parse_scaled("2.123456", 3), Some(2123));
    assert_eq!(parse_scaled("5.", 3), Some(5000));
    assert_eq!(parse_scaled(".5", 3), None);
    assert_eq!(parse_scaled("1.2.3", 3), None);
    assert_eq!(parse_scaled("abc", 3), None);
    assert_eq!(parse_scaled("184467440737.09551616", 8), None);
}

#[test]
fn path_joining() {
    assert_eq!(join_path("/srv", "encoded"), "/srv/encoded");
    assert_eq!(join_path("/srv/", "encoded"), "/srv/encoded");
    assert_eq!(join_path("", "encoded"), "encoded");
}

#[test]
fn boost_tiers_are_exact() {
    assert_eq!(boost_duration(1000), 20);
    assert_eq!(boost_duration(10000), 30);
    assert_eq!(boost_duration(25000), 60);
    assert_eq!(boost_duration(50000), 100);
    assert_eq!(boost_duration(50001), 120);
    assert_eq!(boost_duration(0), 20);
    assert_eq!(boost_duration(1001), 30);
    assert_eq!(boost_duration(u64::MAX), 120);
}

fn invoice() -> BoostMessageInvoice {
    BoostMessageInvoice {
        id: "inv1".to_string(),
        message: "gg".to_string(),
        from: "Anon7".to_string(),
        room: "v1".to_string(),
    }
}

#[test]
fn confirmed_payment_publishes_boosted_message() {
    let p = confirm_payment(Some(invoice()), "0.00005").unwrap();
    assert_eq!(p.room, "v1");
    assert_eq!(
        p.packet,
        WsPacket::ServerMessage {
            from: "Anon7".to_string(),
            message: "gg".to_string(),
            extra: Some(MessageExtra { amount: 5000, timestamp: 0, duration: 30 }),
        }
    );
}

#[test]
fn second_confirmation_publishes_nothing() {
    let mut store = vec![invoice()];
    let mut take = |id: &str| -> Option<BoostMessageInvoice> {
        let pos = store.iter().position(|i| i.id == id)?;
        Some(store.remove(pos))
    };
    let first = confirm_payment(take("inv1"), "0.00005");
    let second = confirm_payment(take("inv1"), "0.00005");
    assert!(first.is_some());
    assert!(second.is_none());
}

#[test]
fn unreadable_amount_publishes_nothing() {
    assert!(confirm_payment(Some(invoice()), "lots").is_none());
    assert!(confirm_payment(None, "0.1").is_none());
}

fn notice(status: InvoiceStatus) -> WebhookData {
    WebhookData {
        event: WebhookEvent { code: 1003, name: "invoice_paidInFull".to_string() },
        data: InvoiceNotice { id: "inv1".to_string(), status, btc_paid: "0.00005".to_string() },
    }
}

#[test]
fn only_settled_invoices_are_consumed() {
    assert_eq!(notice(InvoiceStatus::Paid).settled_invoice(), Some("inv1".to_string()));
    assert_eq!(notice(InvoiceStatus::Confirmed).settled_invoice(), Some("inv1".to_string()));
    assert_eq!(notice(InvoiceStatus::Completed).settled_invoice(), Some("inv1".to_string()));
    assert_eq!(notice(InvoiceStatus::New).settled_invoice(), None);
    assert_eq!(notice(InvoiceStatus::Expired).settled_invoice(), None);
    assert_eq!(notice(InvoiceStatus::Invalid).settled_invoice(), None);
}

#[test]
fn paid_message_from_request_to_delivery() {
    let live = Video {
        id: "v1".to_string(),
        title: "t".to_string(),
        description: "d".to_string(),
        status: VideoStatus::Live { started_timestamp: 1, viewers: 0 },
    };
    let mut s = Session::new("Anon5".to_string());
    assert!(s.handle(WsPacket::Join { room: "v1".to_string() }, Some(live)).is_ok());
    let request = s.handle(WsPacket::GetInvoice { amount: 5000, message: "gg".to_string() }, None);
    let (amount, message) = match request {
        Ok(Effect::RequestInvoice { amount, message }) => (amount, message),
        _ => panic!("expected an invoice request"),
    };
    assert_eq!(amount, 5000);
    let (record, frame) = s.invoice_created("inv42".to_string(), message).ok().unwrap();
    assert_eq!(frame, WsPacket::Invoice { id: "inv42".to_string() });
    let mut store = vec![record];
    let mut take = |id: &str| -> Option<BoostMessageInvoice> {
        let pos = store.iter().position(|i| i.id == id)?;
        Some(store.remove(pos))
    };
    let paid = "0.00005000";
    let published = confirm_payment(take("inv42"), paid).unwrap();
    assert_eq!(published.room, "v1");
    match published.packet {
        WsPacket::ServerMessage { from, message, extra: Some(extra) } => {
            assert_eq!(from, "Anon5");
            assert_eq!(message, "gg");
            assert_eq!(extra.duration, 30);
            assert_eq!(extra.amount, 5000);
        }
        other => panic!("unexpected {:?}", other),
    }
    assert!(confirm_payment(take("inv42"), paid).is_none());
    assert!(store.is_empty());
}
