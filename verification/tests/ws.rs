use microclaw::{boot_message, device_ws_url, reconnect_backoff_ms, ui_shell_title};

#[test]
fn builds_device_ws_url() {
    let url = device_ws_url("gateway.local", "dev1");
    assert_eq!(url, "wss://gateway.local/ws?device_id=dev1");
}

#[test]
fn reconnect_backoff_increases() {
    let first = reconnect_backoff_ms(1);
    let second = reconnect_backoff_ms(2);
    assert!(second > first);
}

#[test]
fn exposes_ui_shell_title() {
    assert_eq!(ui_shell_title(), "microclaw");
}

#[test]
fn exposes_boot_message() {
    assert_eq!(boot_message(), "microclaw-device ready");
}

#[test]
fn reconnect_backoff_doubles_up_to_the_sixth_attempt() {
    assert_eq!(reconnect_backoff_ms(0), 500);
    assert_eq!(reconnect_backoff_ms(1), 500);
    assert_eq!(reconnect_backoff_ms(2), 1_000);
    assert_eq!(reconnect_backoff_ms(3), 2_000);
    assert_eq!(reconnect_backoff_ms(4), 4_000);
    assert_eq!(reconnect_backoff_ms(5), 8_000);
    assert_eq!(reconnect_backoff_ms(6), 16_000);
    assert_eq!(reconnect_backoff_ms(7), 16_000);
    assert_eq!(reconnect_backoff_ms(u32::MAX), 16_000);
}

#[test]
fn ws_url_keeps_empty_parts() {
    assert_eq!(device_ws_url("", ""), "wss:///ws?device_id=");
}
