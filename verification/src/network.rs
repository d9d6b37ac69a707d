//! Configuration and bring-up of the network stack over the wifi chip.
//!
//! The stack takes a static IPv4 address in a /24 network, with no gateway
//! and no DNS servers, where one is known; else it asks DHCP. Bring-up joins
//! the wifi network, retrying after each failure, waits until the IP
//! configuration is up, and only then binds the UDP socket.

use vstd::prelude::*;

verus! {

/// An IPv4 address, by its four octets in network order.
#[derive(Clone, Copy, Debug, PartialEq, Eq, Structural)]
pub struct Ipv4Address(pub u8, pub u8, pub u8, pub u8);

/// An IPv4 address and UDP port.
#[derive(Clone, Copy, Debug, PartialEq, Eq, Structural)]
pub struct Endpoint {
    pub address: Ipv4Address,
    pub port: u16,
}

/// Length of the network prefix of a static address.
pub const STATIC_PREFIX_LEN: u8 = 24;

/// Sockets the network stack has resources for.
pub const STACK_SOCKETS: usize = 3;

/// Bytes in each of the UDP socket's receive and transmit buffers.
pub const SOCKET_BUFFER_LEN: usize = 4096;

/// Packet metadata slots of each of the UDP socket's buffers.
pub const SOCKET_METADATA_SLOTS: usize = 16;

/// Milliseconds between checks of whether the IP configuration is up.
pub const CONFIG_POLL_MS: u64 = 100;

/// A static IPv4 configuration.
#[derive(Debug, PartialEq, Eq)]
pub struct StaticIpv4Config {
    pub address: Ipv4Address,
    pub prefix_len: u8,
    pub gateway: Option<Ipv4Address>,
    pub dns_servers: Vec<Ipv4Address>,
}

/// How the network stack obtains its IPv4 configuration.
#[derive(Debug, PartialEq, Eq)]
pub enum NetworkConfig {
    /// A fixed address.
    Static(StaticIpv4Config),
    /// DHCP, with the default options.
    Dhcp,
}

/// The configuration for a known local address, or DHCP where none is
/// known: a known address speeds up connecting.
pub fn network_config(local_ip: Option<Ipv4Address>) -> (config: NetworkConfig)
    ensures
        match local_ip {
            Some(address) => config matches NetworkConfig::Static(c) && c.address == address
                && c.prefix_len == STATIC_PREFIX_LEN && c.gateway is None && c.dns_servers@.len()
                == 0,
            None => config is Dhcp,
        },
{
    match local_ip {
        Some(address) => NetworkConfig::Static(
            StaticIpv4Config {
                address,
                prefix_len: STATIC_PREFIX_LEN,
                gateway: None,
                dns_servers: Vec::new(),
            },
        ),
        None => NetworkConfig::Dhcp,
    }
}

/// Where bring-up of the network stands.
#[derive(Clone, Copy, Debug, PartialEq, Eq, Structural)]
pub enum BringUp {
    /// Joining the wifi network.
    Joining,
    /// Joined; waiting until the IP configuration is up.
    AwaitingConfig,
    /// The IP configuration is up; the socket can be bound.
    Ready,
}

/// What the wifi chip and the network stack report.
#[derive(Clone, Copy, Debug, PartialEq, Eq, Structural)]
pub enum BringUpEvent {
    /// An attempt to join the wifi network succeeded.
    Joined,
    /// An attempt to join failed with this status.
    JoinFailed { status: u32 },
    /// The IP configuration is up.
    ConfigUp,
    /// The IP configuration is not up yet.
    ConfigPending,
}

/// What bring-up asks of its caller.
#[derive(Clone, Copy, Debug, PartialEq, Eq, Structural)]
pub enum BringUpAction {
    /// Try to join the wifi network.
    Join,
    /// Report the failed attempt's status, then try to join again.
    RetryJoin { status: u32 },
    /// Wait for the IP configuration.
    AwaitConfig,
    /// Create the UDP socket and bind it.
    BindSocket,
}

/// What a phase waits for, asked again while nothing moves it on.
pub open spec fn waiting_action(phase: BringUp) -> BringUpAction {
    match phase {
        BringUp::Joining => BringUpAction::Join,
        BringUp::AwaitingConfig => BringUpAction::AwaitConfig,
        BringUp::Ready => BringUpAction::BindSocket,
    }
}

/// The next phase and the request to the caller after `event` in `phase`.
/// An event that the phase does not wait for changes nothing.
pub open spec fn bring_up_transition(phase: BringUp, event: BringUpEvent) -> (BringUp, BringUpAction) {
    match (phase, event) {
        (BringUp::Joining, BringUpEvent::Joined) => (BringUp::AwaitingConfig, BringUpAction::AwaitConfig),
        (BringUp::Joining, BringUpEvent::JoinFailed { status }) => (
            BringUp::Joining,
            BringUpAction::RetryJoin { status },
        ),
        (BringUp::AwaitingConfig, BringUpEvent::ConfigUp) => (BringUp::Ready, BringUpAction::BindSocket),
        _ => (phase, waiting_action(phase)),
    }
}

/// The phase bring-up starts in, and what it asks for first.
pub fn bring_up_start() -> (start: (BringUp, BringUpAction))
    ensures
        start == (BringUp::Joining, BringUpAction::Join),
{
    (BringUp::Joining, BringUpAction::Join)
}

/// One step of bring-up: the next phase and the request to the caller.
pub fn bring_up_step(phase: BringUp, event: BringUpEvent) -> (next: (BringUp, BringUpAction))
    ensures
        next == bring_up_transition(phase, event),
{
    match (phase, event) {
        (BringUp::Joining, BringUpEvent::Joined) => (BringUp::AwaitingConfig, BringUpAction::AwaitConfig),
        (BringUp::Joining, BringUpEvent::JoinFailed { status }) => (
            BringUp::Joining,
            BringUpAction::RetryJoin { status },
        ),
        (BringUp::AwaitingConfig, BringUpEvent::ConfigUp) => (BringUp::Ready, BringUpAction::BindSocket),
        (BringUp::Joining, _) => (BringUp::Joining, BringUpAction::Join),
        (BringUp::AwaitingConfig, _) => (BringUp::AwaitingConfig, BringUpAction::AwaitConfig),
        (BringUp::Ready, _) => (BringUp::Ready, BringUpAction::BindSocket),
    }
}

/// The phase after `events`, starting in `phase`.
pub open spec fn bring_up_after(phase: BringUp, events: Seq<BringUpEvent>) -> BringUp
    decreases events.len(),
{
    if events.len() == 0 {
        phase
    } else {
        bring_up_after(bring_up_transition(phase, events[0]).0, events.drop_first())
    }
}

/// How far a phase is along.
pub open spec fn progress(phase: BringUp) -> int {
    match phase {
        BringUp::Joining => 0,
        BringUp::AwaitingConfig => 1,
        BringUp::Ready => 2,
    }
}

/// Bring-up never goes back: whatever is reported, the phase reached is at
/// least as far along as the one it started from.
pub proof fn lemma_bring_up_never_goes_back(phase: BringUp, events: Seq<BringUpEvent>)
    ensures
        progress(bring_up_after(phase, events)) >= progress(phase),
    decreases events.len(),
{
    if events.len() > 0 {
        lemma_bring_up_never_goes_back(bring_up_transition(phase, events[0]).0, events.drop_first());
    }
}

/// Failed joins keep bring-up joining: from `Joining`, a run of failures
/// leaves it there, each one answered by a retry.
pub proof fn lemma_failed_joins_keep_joining(events: Seq<BringUpEvent>)
    requires
        forall|i: int| 0 <= i < events.len() ==> #[trigger] events[i] is JoinFailed,
    ensures
        bring_up_after(BringUp::Joining, events) == BringUp::Joining,
        forall|i: int| 0 <= i < events.len() ==>
            (#[trigger] bring_up_transition(BringUp::Joining, events[i])).1 is RetryJoin,
    decreases events.len(),
{
    if events.len() > 0 {
        assert(events[0] is JoinFailed);
        assert forall|i: int| 0 <= i < events.drop_first().len() implies
            #[trigger] events.drop_first()[i] is JoinFailed by {
            assert(events[i + 1] is JoinFailed);
        }
        lemma_failed_joins_keep_joining(events.drop_first());
    }
}

/// The socket is bound only after a successful join followed by the IP
/// configuration coming up: bring-up from `Joining` is `Ready` only where
/// `Joined` was reported and, later, `ConfigUp`.
pub proof fn lemma_ready_only_after_join_and_config(events: Seq<BringUpEvent>)
    requires
        bring_up_after(BringUp::Joining, events) == BringUp::Ready,
    ensures
        exists|i: int, j: int|
            0 <= i < j < events.len() && #[trigger] events[i] == BringUpEvent::Joined
                && #[trigger] events[j] == BringUpEvent::ConfigUp,
    decreases events.len(),
{
    let rest = events.drop_first();
    let next = bring_up_transition(BringUp::Joining, events[0]).0;
    if next == BringUp::Joining {
        lemma_ready_only_after_join_and_config(rest);
        let (i, j) = choose|i: int, j: int|
            0 <= i < j < rest.len() && #[trigger] rest[i] == BringUpEvent::Joined
                && #[trigger] rest[j] == BringUpEvent::ConfigUp;
        assert(events[i + 1] == BringUpEvent::Joined && events[j + 1] == BringUpEvent::ConfigUp);
    } else {
        assert(events[0] == BringUpEvent::Joined);
        lemma_config_up_reported(rest);
        let j: int = choose|j: int| 0 <= j < rest.len() && #[trigger] rest[j] == BringUpEvent::ConfigUp;
        assert(events[0] == BringUpEvent::Joined && events[j + 1] == BringUpEvent::ConfigUp);
    }
}

/// From `AwaitingConfig`, bring-up is `Ready` only where `ConfigUp` was
/// reported.
proof fn lemma_config_up_reported(events: Seq<BringUpEvent>)
    requires
        bring_up_after(BringUp::AwaitingConfig, events) == BringUp::Ready,
    ensures
        exists|j: int| 0 <= j < events.len() && #[trigger] events[j] == BringUpEvent::ConfigUp,
    decreases events.len(),
{
    if events[0] != BringUpEvent::ConfigUp {
        let rest = events.drop_first();
        lemma_config_up_reported(rest);
        let j: int = choose|j: int| 0 <= j < rest.len() && #[trigger] rest[j] == BringUpEvent::ConfigUp;
        assert(events[j + 1] == BringUpEvent::ConfigUp);
    } else {
        assert(events[0] == BringUpEvent::ConfigUp);
    }
}

} // verus!
