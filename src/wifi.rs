use rand::Rng;
use vstd::prelude::*;
use vstd::utf8::encode_utf8;

verus! {

/// How many times association is tried before giving up.
pub const MAX_ATTEMPTS: u32 = 10;

/// The fixed pause between two association attempts, in milliseconds.
pub const BACKOFF_MS: u32 = 10000;

/// The longest SSID a station can be configured with, in UTF-8 bytes.
pub const MAX_SSID_BYTES: usize = 32;

/// The longest password a station can be configured with, in UTF-8 bytes.
pub const MAX_PASSWORD_BYTES: usize = 64;

/// How the station authenticates to the network.
#[derive(Debug, Clone, Copy, PartialEq, Eq, Structural)]
pub enum AuthMethod {
    /// An open network, without a password.
    Open,
    /// A network protected by a pre-shared key.
    Psk,
}

/// What the station joins: network name, password and authentication method.
pub struct WifiCredentials {
    pub ssid: String,
    pub password: String,
    pub auth: AuthMethod,
}

/// Whether the SSID and password fit the radio's configuration fields.
pub open spec fn credentials_valid(c: &WifiCredentials) -> bool {
    encode_utf8(c.ssid@).len() <= MAX_SSID_BYTES && encode_utf8(c.password@).len()
        <= MAX_PASSWORD_BYTES
}

impl WifiCredentials {
    /// Whether the SSID is at most 32 bytes and the password at most 64 bytes long.
    pub fn is_valid(&self) -> (r: bool)
        ensures
            r == credentials_valid(self),
    {
        self.ssid.as_str().as_bytes().len() <= MAX_SSID_BYTES && self.password.as_str().as_bytes().len()
            <= MAX_PASSWORD_BYTES
    }
}

/// Why the station could not be brought onto the network.
#[derive(Debug, Clone, Copy, PartialEq, Eq, Structural)]
pub enum ConnectError {
    /// The credentials do not fit the radio's configuration; nothing was tried.
    Configuration,
    /// Every one of the association attempts failed.
    RetryExhausted,
    /// The radio stack failed while being configured, started or brought up.
    Radio,
}

/// Where the station stands on its way onto the network.
#[derive(Debug, Clone, Copy, PartialEq, Eq, Structural)]
pub enum ConnectState {
    /// Nothing has been done yet.
    Idle,
    /// The credentials are being applied to the radio and the radio started.
    Configuring,
    /// Association attempt number `attempt` (counted from 0) is under way.
    Associating { attempt: u32 },
    /// Associated; waiting for the interface to be up with an address.
    AwaitingAddress,
    /// The interface is up with an address. Terminal.
    Connected,
    /// Given up. Terminal: recovery is a restart.
    Failed(ConnectError),
}

/// What the radio reports back after carrying out an action.
#[derive(Debug, Clone, Copy, PartialEq, Eq, Structural)]
pub enum ConnectEvent {
    /// The configuration was applied and the radio started.
    Configured,
    /// The association attempt succeeded.
    Associated,
    /// The association attempt failed.
    AssociationFailed,
    /// The interface is up and holds an address.
    AddressLeased,
    /// The radio stack reported an error outside of association.
    RadioFailed,
}

/// What the radio is asked to do next.
#[derive(Debug, Clone, Copy, PartialEq, Eq, Structural)]
pub enum ConnectAction {
    /// Apply the credentials and start the radio.
    Configure,
    /// Make an association attempt now.
    Associate,
    /// Wait `delay_ms` milliseconds, then make an association attempt.
    RetryAfter { delay_ms: u32 },
    /// Block until the interface is up with an address.
    WaitForAddress,
    /// The network is up; hand it to the caller.
    Done,
    /// Stop with this error.
    Abort(ConnectError),
    /// The event does not apply in this state; nothing to do.
    Nothing,
}

/// The first state and action, before any event: configure the radio when the credentials
/// are valid, otherwise fail at once without any attempt.
pub open spec fn initial(c: &WifiCredentials) -> (ConnectState, ConnectAction) {
    if credentials_valid(c) {
        (ConnectState::Configuring, ConnectAction::Configure)
    } else {
        (
            ConnectState::Failed(ConnectError::Configuration),
            ConnectAction::Abort(ConnectError::Configuration),
        )
    }
}

/// Moving to the terminal failure state with error `e`.
pub open spec fn failing(e: ConnectError) -> (ConnectState, ConnectAction) {
    (ConnectState::Failed(e), ConnectAction::Abort(e))
}

/// The connection state machine: the next state and action after event `e` in state `s`.
/// A failed association is retried after a fixed backoff until `MAX_ATTEMPTS` attempts
/// have failed; events that do not apply to a state leave it unchanged.
pub open spec fn transition(s: ConnectState, e: ConnectEvent) -> (ConnectState, ConnectAction) {
    match s {
        ConnectState::Configuring => match e {
            ConnectEvent::Configured => (
                ConnectState::Associating { attempt: 0 },
                ConnectAction::Associate,
            ),
            ConnectEvent::RadioFailed => failing(ConnectError::Radio),
            _ => (s, ConnectAction::Nothing),
        },
        ConnectState::Associating { attempt } => match e {
            ConnectEvent::Associated => (ConnectState::AwaitingAddress, ConnectAction::WaitForAddress),
            ConnectEvent::AssociationFailed => if attempt + 1 < MAX_ATTEMPTS {
                (
                    ConnectState::Associating { attempt: (attempt + 1) as u32 },
                    ConnectAction::RetryAfter { delay_ms: BACKOFF_MS },
                )
            } else {
                failing(ConnectError::RetryExhausted)
            },
            ConnectEvent::RadioFailed => failing(ConnectError::Radio),
            _ => (s, ConnectAction::Nothing),
        },
        ConnectState::AwaitingAddress => match e {
            ConnectEvent::AddressLeased => (ConnectState::Connected, ConnectAction::Done),
            ConnectEvent::RadioFailed => failing(ConnectError::Radio),
            _ => (s, ConnectAction::Nothing),
        },
        _ => (s, ConnectAction::Nothing),
    }
}

/// Leaves `Idle`: checks the credentials and says whether to configure the radio or fail.
pub fn start(credentials: &WifiCredentials) -> (r: (ConnectState, ConnectAction))
    ensures
        r == initial(credentials),
{
    if credentials.is_valid() {
        (ConnectState::Configuring, ConnectAction::Configure)
    } else {
        (
            ConnectState::Failed(ConnectError::Configuration),
            ConnectAction::Abort(ConnectError::Configuration),
        )
    }
}

/// One step of the connection state machine.
pub fn step(state: ConnectState, event: ConnectEvent) -> (r: (ConnectState, ConnectAction))
    ensures
        r == transition(state, event),
{
    match state {
        ConnectState::Configuring => match event {
            ConnectEvent::Configured => (
                ConnectState::Associating { attempt: 0 },
                ConnectAction::Associate,
            ),
            ConnectEvent::RadioFailed => (
                ConnectState::Failed(ConnectError::Radio),
                ConnectAction::Abort(ConnectError::Radio),
            ),
            _ => (state, ConnectAction::Nothing),
        },
        ConnectState::Associating { attempt } => match event {
            ConnectEvent::Associated => (ConnectState::AwaitingAddress, ConnectAction::WaitForAddress),
            ConnectEvent::AssociationFailed => if attempt < MAX_ATTEMPTS - 1 {
                (
                    ConnectState::Associating { attempt: attempt + 1 },
                    ConnectAction::RetryAfter { delay_ms: BACKOFF_MS },
                )
            } else {
                (
                    ConnectState::Failed(ConnectError::RetryExhausted),
                    ConnectAction::Abort(ConnectError::RetryExhausted),
                )
            },
            ConnectEvent::RadioFailed => (
                ConnectState::Failed(ConnectError::Radio),
                ConnectAction::Abort(ConnectError::Radio),
            ),
            _ => (state, ConnectAction::Nothing),
        },
        ConnectState::AwaitingAddress => match event {
            ConnectEvent::AddressLeased => (ConnectState::Connected, ConnectAction::Done),
            ConnectEvent::RadioFailed => (
                ConnectState::Failed(ConnectError::Radio),
                ConnectAction::Abort(ConnectError::Radio),
            ),
            _ => (state, ConnectAction::Nothing),
        },
        _ => (state, ConnectAction::Nothing),
    }
}

/// The final state and the actions asked for when the events `evs` arrive in state `s`.
pub open spec fn run(s: ConnectState, evs: Seq<ConnectEvent>) -> (ConnectState, Seq<ConnectAction>)
    decreases evs.len(),
{
    if evs.len() == 0 {
        (s, Seq::empty())
    } else {
        let (next, a) = transition(s, evs[0]);
        let (last, rest) = run(next, evs.drop_first());
        (last, seq![a] + rest)
    }
}

/// Whether the action makes an association attempt.
pub open spec fn is_attempt(a: ConnectAction) -> bool {
    a is Associate || a is RetryAfter
}

/// How many association attempts the actions make.
pub open spec fn attempt_count(acts: Seq<ConnectAction>) -> nat
    decreases acts.len(),
{
    if acts.len() == 0 {
        0
    } else {
        (if is_attempt(acts[0]) {
            1nat
        } else {
            0nat
        }) + attempt_count(acts.drop_first())
    }
}

/// How many backoff delays the actions ask for.
pub open spec fn delay_count(acts: Seq<ConnectAction>) -> nat
    decreases acts.len(),
{
    if acts.len() == 0 {
        0
    } else {
        (if acts[0] is RetryAfter {
            1nat
        } else {
            0nat
        }) + delay_count(acts.drop_first())
    }
}

/// `k` failed association attempts in a row.
pub open spec fn failures(k: nat) -> Seq<ConnectEvent> {
    Seq::new(k, |i: int| ConnectEvent::AssociationFailed)
}

proof fn lemma_run_append(s: ConnectState, a: Seq<ConnectEvent>, b: Seq<ConnectEvent>)
    ensures
        run(s, a + b) == (run(run(s, a).0, b).0, run(s, a).1 + run(run(s, a).0, b).1),
    decreases a.len(),
{
    if a.len() == 0 {
        assert(a + b =~= b);
        assert(run(s, a).1 + run(s, b).1 =~= run(s, b).1);
    } else {
        let (next, x) = transition(s, a[0]);
        assert((a + b).drop_first() =~= a.drop_first() + b);
        lemma_run_append(next, a.drop_first(), b);
        let mid = run(next, a.drop_first());
        assert(seq![x] + (mid.1 + run(mid.0, b).1) =~= (seq![x] + mid.1) + run(mid.0, b).1);
    }
}

proof fn lemma_counts_append(x: Seq<ConnectAction>, y: Seq<ConnectAction>)
    ensures
        attempt_count(x + y) == attempt_count(x) + attempt_count(y),
        delay_count(x + y) == delay_count(x) + delay_count(y),
    decreases x.len(),
{
    if x.len() == 0 {
        assert(x + y =~= y);
    } else {
        assert((x + y).drop_first() =~= x.drop_first() + y);
        lemma_counts_append(x.drop_first(), y);
    }
}

proof fn lemma_single_counts(a: ConnectAction)
    ensures
        attempt_count(seq![a]) == (if is_attempt(a) { 1nat } else { 0nat }),
        delay_count(seq![a]) == (if a is RetryAfter { 1nat } else { 0nat }),
{
    reveal_with_fuel(attempt_count, 2);
    reveal_with_fuel(delay_count, 2);
    assert(seq![a].drop_first() =~= Seq::<ConnectAction>::empty());
}

/// From attempt `a`, `m` more failures that stay within the budget move on to attempt
/// `a + m` with `m` retries, each one delayed.
proof fn lemma_failures_within_budget(a: u32, m: nat)
    requires
        a + m < MAX_ATTEMPTS,
    ensures
        run(ConnectState::Associating { attempt: a }, failures(m)).0 == (ConnectState::Associating {
            attempt: (a + m) as u32,
        }),
        attempt_count(run(ConnectState::Associating { attempt: a }, failures(m)).1) == m,
        delay_count(run(ConnectState::Associating { attempt: a }, failures(m)).1) == m,
    decreases m,
{
    if m > 0 {
        let s = ConnectState::Associating { attempt: a };
        let next = ConnectState::Associating { attempt: (a + 1) as u32 };
        assert(failures(m).drop_first() =~= failures((m - 1) as nat));
        lemma_failures_within_budget((a + 1) as u32, (m - 1) as nat);
        let rest = run(next, failures((m - 1) as nat)).1;
        let act = ConnectAction::RetryAfter { delay_ms: BACKOFF_MS };
        lemma_counts_append(seq![act], rest);
        lemma_single_counts(act);
    }
}

/// Once connected or failed, no event makes the machine ask for anything.
proof fn lemma_terminal(s: ConnectState, evs: Seq<ConnectEvent>)
    requires
        s is Connected || s is Failed,
    ensures
        run(s, evs).0 == s,
        attempt_count(run(s, evs).1) == 0,
        delay_count(run(s, evs).1) == 0,
    decreases evs.len(),
{
    if evs.len() > 0 {
        lemma_terminal(s, evs.drop_first());
        lemma_counts_append(seq![ConnectAction::Nothing], run(s, evs.drop_first()).1);
        lemma_single_counts(ConnectAction::Nothing);
    }
}

/// With valid credentials, when association first succeeds on attempt `k` (counted from
/// 0, `k` below `MAX_ATTEMPTS`) and the address is then leased, the station ends up
/// connected after exactly `k + 1` attempts and `k` backoff delays, whatever events
/// arrive afterwards.
pub proof fn lemma_connects_on_attempt(c: &WifiCredentials, k: nat, later: Seq<ConnectEvent>)
    requires
        credentials_valid(c),
        k < MAX_ATTEMPTS,
    ensures
        ({
            let (s0, a0) = initial(c);
            let evs = seq![ConnectEvent::Configured] + failures(k) + seq![
                ConnectEvent::Associated,
                ConnectEvent::AddressLeased,
            ] + later;
            let acts = seq![a0] + run(s0, evs).1;
            &&& run(s0, evs).0 == ConnectState::Connected
            &&& attempt_count(acts) == k + 1
            &&& delay_count(acts) == k
        }),
{
    let s0 = ConnectState::Configuring;
    let a0 = ConnectAction::Configure;
    let first = seq![ConnectEvent::Configured];
    let tail = seq![ConnectEvent::Associated, ConnectEvent::AddressLeased];
    let s1 = ConnectState::Associating { attempt: 0 };
    let s2 = ConnectState::Associating { attempt: k as u32 };
    assert(run(s0, first) == (s1, seq![ConnectAction::Associate])) by {
        reveal_with_fuel(run, 2);
        assert(first.drop_first() =~= Seq::<ConnectEvent>::empty());
        assert(seq![ConnectAction::Associate] + Seq::<ConnectAction>::empty() =~= seq![
            ConnectAction::Associate,
        ]);
    }
    lemma_failures_within_budget(0, k);
    let tail_acts = seq![ConnectAction::WaitForAddress, ConnectAction::Done];
    assert(run(s2, tail) == (ConnectState::Connected, tail_acts)) by {
        reveal_with_fuel(run, 3);
        assert(tail.drop_first() =~= seq![ConnectEvent::AddressLeased]);
        assert(tail.drop_first().drop_first() =~= Seq::<ConnectEvent>::empty());
        assert(seq![ConnectAction::Done] + Seq::<ConnectAction>::empty() =~= seq![
            ConnectAction::Done,
        ]);
        assert(seq![ConnectAction::WaitForAddress] + seq![ConnectAction::Done] =~= tail_acts);
    }
    assert(attempt_count(tail_acts) == 0 && delay_count(tail_acts) == 0) by {
        lemma_counts_append(seq![ConnectAction::WaitForAddress], seq![ConnectAction::Done]);
        lemma_single_counts(ConnectAction::WaitForAddress);
        lemma_single_counts(ConnectAction::Done);
        assert(seq![ConnectAction::WaitForAddress] + seq![ConnectAction::Done] =~= tail_acts);
    }
    lemma_run_append(s0, first, failures(k));
    lemma_run_append(s0, first + failures(k), tail);
    lemma_run_append(s0, first + failures(k) + tail, later);
    lemma_terminal(ConnectState::Connected, later);
    let fa = run(s1, failures(k)).1;
    let la = run(ConnectState::Connected, later).1;
    lemma_counts_append(seq![a0], seq![ConnectAction::Associate] + fa + tail_acts + la);
    lemma_counts_append(seq![ConnectAction::Associate] + fa + tail_acts, la);
    lemma_counts_append(seq![ConnectAction::Associate] + fa, tail_acts);
    lemma_counts_append(seq![ConnectAction::Associate], fa);
    lemma_single_counts(a0);
    lemma_single_counts(ConnectAction::Associate);
}

/// With valid credentials, when every association attempt fails the machine gives up with
/// `RetryExhausted` after exactly `MAX_ATTEMPTS` attempts and one delay fewer (none after
/// the last failure), and makes no further attempt whatever events arrive afterwards.
pub proof fn lemma_gives_up_after_all_attempts_fail(c: &WifiCredentials, later: Seq<ConnectEvent>)
    requires
        credentials_valid(c),
    ensures
        ({
            let (s0, a0) = initial(c);
            let evs = seq![ConnectEvent::Configured] + failures(MAX_ATTEMPTS as nat) + later;
            let acts = seq![a0] + run(s0, evs).1;
            &&& run(s0, evs).0 == ConnectState::Failed(ConnectError::RetryExhausted)
            &&& attempt_count(acts) == MAX_ATTEMPTS
            &&& delay_count(acts) == MAX_ATTEMPTS - 1
        }),
{
    let s0 = ConnectState::Configuring;
    let a0 = ConnectAction::Configure;
    let first = seq![ConnectEvent::Configured];
    let k = (MAX_ATTEMPTS - 1) as nat;
    let s1 = ConnectState::Associating { attempt: 0 };
    let s2 = ConnectState::Associating { attempt: k as u32 };
    let failed = ConnectState::Failed(ConnectError::RetryExhausted);
    let abort = ConnectAction::Abort(ConnectError::RetryExhausted);
    let last = seq![ConnectEvent::AssociationFailed];
    assert(run(s0, first) == (s1, seq![ConnectAction::Associate])) by {
        reveal_with_fuel(run, 2);
        assert(first.drop_first() =~= Seq::<ConnectEvent>::empty());
        assert(seq![ConnectAction::Associate] + Seq::<ConnectAction>::empty() =~= seq![
            ConnectAction::Associate,
        ]);
    }
    assert(run(s2, last) == (failed, seq![abort])) by {
        reveal_with_fuel(run, 2);
        assert(last.drop_first() =~= Seq::<ConnectEvent>::empty());
        assert(seq![abort] + Seq::<ConnectAction>::empty() =~= seq![abort]);
    }
    assert(failures(MAX_ATTEMPTS as nat) =~= failures(k) + last);
    lemma_failures_within_budget(0, k);
    lemma_run_append(s0, first, failures(k));
    lemma_run_append(s0, first + failures(k), last);
    lemma_run_append(s0, first + failures(k) + last, later);
    assert(first + failures(k) + last =~= first + failures(MAX_ATTEMPTS as nat));
    lemma_terminal(failed, later);
    let fa = run(s1, failures(k)).1;
    let la = run(failed, later).1;
    lemma_counts_append(seq![a0], seq![ConnectAction::Associate] + fa + seq![abort] + la);
    lemma_counts_append(seq![ConnectAction::Associate] + fa + seq![abort], la);
    lemma_counts_append(seq![ConnectAction::Associate] + fa, seq![abort]);
    lemma_counts_append(seq![ConnectAction::Associate], fa);
    lemma_single_counts(a0);
    lemma_single_counts(abort);
    lemma_single_counts(ConnectAction::Associate);
}

/// The first octet of a MAC address after the two masks of [`mask_mac`]: clearing bit 0
/// makes the address unicast; the second mask then also clears bit 1, the
/// locally-administered flag, which leaves it open which of the two bits was meant.
pub open spec fn masked_first_octet(b: u8) -> u8 {
    b & 0xFE & 0xFD
}

/// Applies the MAC masks to the first octet and keeps the other five octets.
pub fn mask_mac(raw: [u8; 6]) -> (r: [u8; 6])
    ensures
        r@ == raw@.update(0, masked_first_octet(raw@[0])),
        r@[0] & 0x03 == 0,
{
    let b0: u8 = raw[0];
    let first: u8 = b0 & 0xFE & 0xFD;
    assert(first & 0x03 == 0) by (bit_vector)
        requires
            first == b0 & 0xFE & 0xFD,
    ;
    let r = [first, raw[1], raw[2], raw[3], raw[4], raw[5]];
    assert(r@ =~= raw@.update(0, masked_first_octet(raw@[0])));
    r
}

/// Relies on rand::rng and rand's Rng::fill: six bytes from the thread-local generator.
/// Nothing is known of their values.
#[verifier::external_body]
fn random_octets() -> (r: [u8; 6]) {
    let mut octets = [0u8; 6];
    rand::rng().fill(&mut octets);
    octets
}

/// A random MAC address for the station, with bits 0 and 1 of its first octet cleared.
pub fn generate_random_mac() -> (r: [u8; 6])
    ensures
        r@[0] & 0x03 == 0,
        r@[0] == masked_first_octet(r@[0]),
{
    let raw = random_octets();
    let r = mask_mac(raw);
    let b = r[0];
    assert(b & 0xFE & 0xFD == b) by (bit_vector)
        requires
            b & 0x03 == 0,
    ;
    r
}

} // verus!
