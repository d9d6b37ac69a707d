use rp_picow_examples::network::{
    bring_up_start, bring_up_step, network_config, BringUp, BringUpAction, BringUpEvent,
    Ipv4Address, NetworkConfig, StaticIpv4Config, SOCKET_BUFFER_LEN, SOCKET_METADATA_SLOTS,
    STACK_SOCKETS, STATIC_PREFIX_LEN,
};

#[test]
fn known_address_gives_static_slash_24_config() {
    let config = network_config(Some(Ipv4Address(192, 168, 1, 49)));
    assert_eq!(
        config,
        NetworkConfig::Static(StaticIpv4Config {
            address: Ipv4Address(192, 168, 1, 49),
            prefix_len: 24,
            gateway: None,
            dns_servers: Vec::new(),
        })
    );
    assert_eq!(STATIC_PREFIX_LEN, 24);
}

#[test]
fn unknown_address_uses_dhcp() {
    assert_eq!(network_config(None), NetworkConfig::Dhcp);
}

#[test]
fn resource_sizes() {
    assert_eq!(STACK_SOCKETS, 3);
    assert_eq!(SOCKET_BUFFER_LEN, 4096);
    assert_eq!(SOCKET_METADATA_SLOTS, 16);
}

#[test]
fn bring_up_starts_by_joining() {
    assert_eq!(bring_up_start(), (BringUp::Joining, BringUpAction::Join));
}

#[test]
fn failed_joins_are_retried() {
    let mut phase = BringUp::Joining;
    for status in [1u32, 2, 7] {
        let (next, action) = bring_up_step(phase, BringUpEvent::JoinFailed { status });
        assert_eq!(next, BringUp::Joining);
        assert_eq!(action, BringUpAction::RetryJoin { status });
        phase = next;
    }
}

#[test]
fn join_then_config_then_bind() {
    let (p1, a1) = bring_up_step(BringUp::Joining, BringUpEvent::Joined);
    assert_eq!((p1, a1), (BringUp::AwaitingConfig, BringUpAction::AwaitConfig));
    let (p2, a2) = bring_up_step(p1, BringUpEvent::ConfigPending);
    assert_eq!((p2, a2), (BringUp::AwaitingConfig, BringUpAction::AwaitConfig));
    let (p3, a3) = bring_up_step(p2, BringUpEvent::ConfigUp);
    assert_eq!((p3, a3), (BringUp::Ready, BringUpAction::BindSocket));
}

#[test]
fn events_out_of_turn_change_nothing() {
    assert_eq!(bring_up_step(BringUp::Joining, BringUpEvent::ConfigUp), (BringUp::Joining, BringUpAction::Join));
    assert_eq!(
        bring_up_step(BringUp::AwaitingConfig, BringUpEvent::JoinFailed { status: 3 }),
        (BringUp::AwaitingConfig, BringUpAction::AwaitConfig)
    );
    assert_eq!(bring_up_step(BringUp::Ready, BringUpEvent::Joined), (BringUp::Ready, BringUpAction::BindSocket));
    assert_eq!(bring_up_step(BringUp::Ready, BringUpEvent::ConfigPending), (BringUp::Ready, BringUpAction::BindSocket));
}

#[test]
fn bring_up_never_goes_back_and_needs_join_before_config() {
    let rank = |p: BringUp| match p {
        BringUp::Joining => 0,
        BringUp::AwaitingConfig => 1,
        BringUp::Ready => 2,
    };
    let events = [
        BringUpEvent::ConfigUp,
        BringUpEvent::JoinFailed { status: 1 },
        BringUpEvent::Joined,
        BringUpEvent::JoinFailed { status: 2 },
        BringUpEvent::ConfigPending,
        BringUpEvent::ConfigUp,
        BringUpEvent::Joined,
    ];
    let mut phase = BringUp::Joining;
    let mut seen_joined = false;
    for e in events {
        let (next, _) = bring_up_step(phase, e);
        assert!(rank(next) >= rank(phase));
        if next == BringUp::Ready && phase != BringUp::Ready {
            assert!(seen_joined && e == BringUpEvent::ConfigUp);
        }
        if e == BringUpEvent::Joined {
            seen_joined = true;
        }
        phase = next;
    }
    assert_eq!(phase, BringUp::Ready);
}
