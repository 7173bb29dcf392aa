use bupt_portal::wifi::{
    generate_random_mac, mask_mac, start, step, AuthMethod, ConnectAction, ConnectError,
    ConnectEvent, ConnectState, WifiCredentials, BACKOFF_MS, MAX_ATTEMPTS,
};

fn open_network(ssid: &str) -> WifiCredentials {
    WifiCredentials { ssid: String::from(ssid), password: String::new(), auth: AuthMethod::Open }
}

struct Outcome {
    state: ConnectState,
    attempts: u32,
    delays: u32,
    total_delay_ms: u64,
}

/// Drives the machine against a simulated radio whose association succeeds on attempt
/// `succeed_on` (never when `None`).
fn simulate(credentials: &WifiCredentials, succeed_on: Option<u32>) -> Outcome {
    let (mut state, mut action) = start(credentials);
    let mut attempts: u32 = 0;
    let mut delays: u32 = 0;
    let mut total_delay_ms: u64 = 0;
    for _ in 0..100 {
        let event = match action {
            ConnectAction::Configure => ConnectEvent::Configured,
            ConnectAction::Associate | ConnectAction::RetryAfter { .. } => {
                if let ConnectAction::RetryAfter { delay_ms } = action {
                    delays += 1;
                    total_delay_ms += delay_ms as u64;
                }
                let this = attempts;
                attempts += 1;
                if succeed_on == Some(this) {
                    ConnectEvent::Associated
                } else {
                    ConnectEvent::AssociationFailed
                }
            }
            ConnectAction::WaitForAddress => ConnectEvent::AddressLeased,
            ConnectAction::Done | ConnectAction::Abort(_) | ConnectAction::Nothing => break,
        };
        let (s, a) = step(state, event);
        state = s;
        action = a;
    }
    Outcome { state, attempts, delays, total_delay_ms }
}

#[test]
fn connects_on_each_attempt_with_matching_delays() {
    let c = open_network("BUPT-portal");
    for k in 0..10u32 {
        let o = simulate(&c, Some(k));
        assert_eq!(o.state, ConnectState::Connected);
        assert_eq!(o.attempts, k + 1);
        assert_eq!(o.delays, k);
        assert_eq!(o.total_delay_ms, 10_000 * k as u64);
    }
}

#[test]
fn gives_up_after_ten_failures_with_nine_delays() {
    let o = simulate(&open_network("BUPT-portal"), None);
    assert_eq!(o.state, ConnectState::Failed(ConnectError::RetryExhausted));
    assert_eq!(o.attempts, 10);
    assert_eq!(o.delays, 9);
    assert_eq!(MAX_ATTEMPTS, 10);
    assert_eq!(BACKOFF_MS, 10_000);
}

#[test]
fn success_after_budget_is_never_reached() {
    let o = simulate(&open_network("BUPT-portal"), Some(10));
    assert_eq!(o.state, ConnectState::Failed(ConnectError::RetryExhausted));
    assert_eq!(o.attempts, 10);
}

#[test]
fn long_ssid_is_a_configuration_error() {
    let c = open_network("abcdefghijklmnopqrstuvwxyz0123456");
    assert!(!c.is_valid());
    let (s, a) = start(&c);
    assert_eq!(s, ConnectState::Failed(ConnectError::Configuration));
    assert_eq!(a, ConnectAction::Abort(ConnectError::Configuration));
    assert_eq!(simulate(&c, Some(0)).attempts, 0);
}

#[test]
fn ssid_length_counts_bytes() {
    assert!(open_network("abcdefghijklmnopqrstuvwxyz012345").is_valid());
    // 16 two-byte characters fit, 17 do not.
    assert!(open_network(&"é".repeat(16)).is_valid());
    assert!(!open_network(&"é".repeat(17)).is_valid());
}

#[test]
fn long_password_is_a_configuration_error() {
    let mut c = open_network("net");
    c.auth = AuthMethod::Psk;
    c.password = "p".repeat(64);
    assert!(c.is_valid());
    c.password = "p".repeat(65);
    assert!(!c.is_valid());
}

#[test]
fn radio_failures_abort() {
    let (s, a) = step(ConnectState::Configuring, ConnectEvent::RadioFailed);
    assert_eq!(s, ConnectState::Failed(ConnectError::Radio));
    assert_eq!(a, ConnectAction::Abort(ConnectError::Radio));
    let (s, _) = step(ConnectState::AwaitingAddress, ConnectEvent::RadioFailed);
    assert_eq!(s, ConnectState::Failed(ConnectError::Radio));
}

#[test]
fn retry_step_keeps_fixed_backoff() {
    let (s, a) = step(ConnectState::Associating { attempt: 3 }, ConnectEvent::AssociationFailed);
    assert_eq!(s, ConnectState::Associating { attempt: 4 });
    assert_eq!(a, ConnectAction::RetryAfter { delay_ms: 10_000 });
    let (s, a) = step(ConnectState::Associating { attempt: 9 }, ConnectEvent::AssociationFailed);
    assert_eq!(s, ConnectState::Failed(ConnectError::RetryExhausted));
    assert_eq!(a, ConnectAction::Abort(ConnectError::RetryExhausted));
}

#[test]
fn terminal_states_ignore_events() {
    let failed = ConnectState::Failed(ConnectError::RetryExhausted);
    assert_eq!(step(failed, ConnectEvent::Associated), (failed, ConnectAction::Nothing));
    assert_eq!(
        step(ConnectState::Connected, ConnectEvent::AssociationFailed),
        (ConnectState::Connected, ConnectAction::Nothing)
    );
    assert_eq!(
        step(ConnectState::Idle, ConnectEvent::Configured),
        (ConnectState::Idle, ConnectAction::Nothing)
    );
}

#[test]
fn mask_clears_low_bits_of_first_octet_only() {
    assert_eq!(mask_mac([0xFF, 1, 2, 3, 4, 0xFF]), [0xFC, 1, 2, 3, 4, 0xFF]);
    assert_eq!(mask_mac([0x03, 0, 0, 0, 0, 0]), [0, 0, 0, 0, 0, 0]);
    assert_eq!(mask_mac([0xA6, 9, 9, 9, 9, 9]), [0xA4, 9, 9, 9, 9, 9]);
}

#[test]
fn random_mac_has_low_bits_clear() {
    for _ in 0..32 {
        let mac = generate_random_mac();
        assert_eq!(mac[0] & 0x03, 0);
    }
}
