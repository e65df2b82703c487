use mqtt_adls_bridge::telegrams::{telegram_kind, TelegramKind};

#[test]
fn telegram_kind_reads_status_before_event() {
    assert_eq!(telegram_kind("packml/status/x"), TelegramKind::PackmlStatus);
    assert_eq!(telegram_kind("packml/event/x"), TelegramKind::PackmlEvent);
    assert_eq!(telegram_kind("packml/event/status"), TelegramKind::PackmlStatus);
    assert_eq!(telegram_kind("packml/other"), TelegramKind::Unknown);
    assert_eq!(telegram_kind("service/status"), TelegramKind::MasterServiceStatus);
    assert_eq!(telegram_kind("service/event"), TelegramKind::Unknown);
    assert_eq!(telegram_kind("other/status"), TelegramKind::Unknown);
    assert_eq!(telegram_kind(""), TelegramKind::Unknown);
}
