use bottomless_harness::names::{db_listener_key, s3_listener_key, stall_listener_key};
use bottomless_harness::registry::{ListenerAction, ListenerRegistry, PortHeld};

#[test]
fn a_key_is_bound_once_and_shared_then() {
    let mut registry = ListenerRegistry::new();
    assert_eq!(registry.request("s3-a"), ListenerAction::Bind);
    assert_eq!(registry.bind("s3-a", 40001), Ok(0));
    assert_eq!(
        registry.request("s3-a"),
        ListenerAction::Share {
            slot: 0,
            port: 40001
        }
    );
}

#[test]
fn listeners_are_stable_over_other_requests() {
    let mut registry = ListenerRegistry::new();
    let keys = ["s3-a", "db-a", "stall-a", "s3-b", ""];
    for (i, key) in keys.iter().enumerate() {
        assert_eq!(registry.request(key), ListenerAction::Bind);
        assert_eq!(registry.bind(key, 50000 + i as u16), Ok(i));
        for (j, earlier) in keys.iter().take(i + 1).enumerate() {
            assert_eq!(
                registry.request(earlier),
                ListenerAction::Share {
                    slot: j,
                    port: 50000 + j as u16
                }
            );
        }
    }
    assert_eq!(registry.request("s3-c"), ListenerAction::Bind);
}

#[test]
fn no_two_keys_share_a_port() {
    let mut registry = ListenerRegistry::new();
    let keys = ["s3-a", "db-a", "s3-a", "stall-a", "db-a", "s3-b", "s3-a"];
    let mut next_port = 41000;
    let mut ports: Vec<(&str, u16)> = Vec::new();
    for key in keys {
        let port = match registry.request(key) {
            ListenerAction::Share { port, .. } => port,
            ListenerAction::Bind => {
                next_port += 1;
                registry.bind(key, next_port).unwrap();
                next_port
            }
        };
        ports.push((key, port));
    }
    for a in &ports {
        for b in &ports {
            assert_eq!(a.1 == b.1, a.0 == b.0);
        }
    }
}

#[test]
fn a_held_port_is_refused() {
    let mut registry = ListenerRegistry::new();
    assert_eq!(registry.bind("s3-a", 43000), Ok(0));
    assert_eq!(registry.bind("s3-b", 43001), Ok(1));
    assert_eq!(registry.bind("db-a", 43000), Err(PortHeld));
    assert_eq!(registry.bind("db-a", 43001), Err(PortHeld));
    assert_eq!(registry.request("db-a"), ListenerAction::Bind);
    assert_eq!(registry.bind("db-a", 43002), Ok(2));
    assert_eq!(
        registry.request("s3-a"),
        ListenerAction::Share {
            slot: 0,
            port: 43000
        }
    );
}

#[test]
fn servers_of_a_test_keep_their_own_sockets() {
    let mut registry = ListenerRegistry::new();
    let keys = [
        s3_listener_key("x"),
        db_listener_key("x"),
        stall_listener_key("x"),
    ];
    for (i, key) in keys.iter().enumerate() {
        assert_eq!(registry.request(key), ListenerAction::Bind);
        assert_eq!(registry.bind(key, 42000 + i as u16), Ok(i));
    }
    // a restart finds the port that was bound first
    assert_eq!(
        registry.request(&s3_listener_key("x")),
        ListenerAction::Share {
            slot: 0,
            port: 42000
        }
    );
}
