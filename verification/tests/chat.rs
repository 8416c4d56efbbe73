use budgetchat::build_addr;
use budgetchat::bus::Bus;
use budgetchat::event::Event;
use budgetchat::name::is_valid_name;
use budgetchat::registry::Registry;
use budgetchat::render::filter_others;
use budgetchat::render::presence_line;
use budgetchat::render::render_event_for;
use budgetchat::render::welcome_line;
use budgetchat::session::HandshakeError;
use budgetchat::session::Session;

#[test]
fn welcome_line_is_exact() {
    assert_eq!(welcome_line().as_str(), "Welcome to budgetchat! What shall I call you?");
}

#[test]
fn valid_names_pass() {
    assert!(is_valid_name("bob"));
    assert!(is_valid_name("Alice"));
    assert!(is_valid_name("user123"));
    assert!(is_valid_name("7"));
}

#[test]
fn invalid_names_fail() {
    assert!(!is_valid_name(""));
    assert!(!is_valid_name("bob!"));
    assert!(!is_valid_name("bob smith"));
    assert!(!is_valid_name("bÖb"));
}

#[test]
fn registry_claims_are_exclusive() {
    let mut reg = Registry::new();
    let alice = String::from("alice");
    assert!(reg.try_claim(&alice));
    assert!(!reg.try_claim(&alice));
    assert!(reg.contains_name(&alice));
}

#[test]
fn released_name_is_claimable_again() {
    let mut reg = Registry::new();
    let bob = String::from("bob");
    assert!(reg.try_claim(&bob));
    reg.release(&bob);
    assert!(!reg.contains_name(&bob));
    assert!(reg.try_claim(&bob));
}

#[test]
fn release_of_absent_name_is_a_noop() {
    let mut reg = Registry::new();
    let ghost_name = String::from("nobody");
    reg.release(&ghost_name);
    assert!(!reg.contains_name(&ghost_name));
    assert!(reg.try_claim(&ghost_name));
}

#[test]
fn snapshot_copies_every_name() {
    let mut reg = Registry::new();
    assert!(reg.try_claim(&String::from("alice")));
    assert!(reg.try_claim(&String::from("bob")));
    let snap = reg.snapshot();
    assert_eq!(snap.len(), 2);
    assert!(snap.iter().any(|n| n == "alice"));
    assert!(snap.iter().any(|n| n == "bob"));
}

#[test]
fn presence_of_nobody_is_the_sentinel() {
    let others: Vec<String> = Vec::new();
    assert_eq!(presence_line(&others).as_str(), "* The room contains: just you!");
}

#[test]
fn presence_joins_names_with_comma_space() {
    let others = vec![String::from("alice"), String::from("bob"), String::from("carol")];
    assert_eq!(presence_line(&others).as_str(), "* The room contains: alice, bob, carol");
}

#[test]
fn filter_others_drops_own_name_only() {
    let snap = vec![String::from("alice"), String::from("bob")];
    let me = String::from("bob");
    let others = filter_others(&snap, &me);
    assert_eq!(others.len(), 1);
    assert_eq!(others[0].as_str(), "alice");
}

#[test]
fn text_event_renders_bracketed_for_others() {
    let e = Event::Text { name: String::from("bob"), body: String::from("hello") };
    let me = String::from("alice");
    let line = render_event_for(&e, &me).expect("other sessions see the relay line");
    assert_eq!(line.as_str(), "[bob] hello");
}

#[test]
fn own_events_render_to_nothing() {
    let me = String::from("bob");
    let join = Event::Join(String::from("bob"));
    let leave = Event::Leave(String::from("bob"));
    let text = Event::Text { name: String::from("bob"), body: String::from("hi") };
    assert!(render_event_for(&join, &me).is_none());
    assert!(render_event_for(&leave, &me).is_none());
    assert!(render_event_for(&text, &me).is_none());
}

#[test]
fn join_and_leave_render_as_notices() {
    let me = String::from("alice");
    let join = Event::Join(String::from("bob"));
    let leave = Event::Leave(String::from("bob"));
    assert_eq!(render_event_for(&join, &me).unwrap().as_str(), "* bob has entered the room");
    assert_eq!(render_event_for(&leave, &me).unwrap().as_str(), "* bob has left the room");
}

#[test]
fn handshake_rejects_invalid_names_without_broadcast() {
    for bad in ["", "bob!", "bob smith"] {
        let mut reg = Registry::new();
        let mut s = Session::new();
        let _welcome = s.on_connect();
        let r = s.on_name_line(&mut reg, String::from(bad));
        assert_eq!(r.err().expect("handshake must fail"), HandshakeError::InvalidName);
        assert!(!reg.contains_name(&String::from(bad)));
    }
}

#[test]
fn handshake_rejects_taken_name() {
    let mut reg = Registry::new();
    let mut first = Session::new();
    let _ = first.on_connect();
    assert!(first.on_name_line(&mut reg, String::from("alice")).is_ok());

    let mut second = Session::new();
    let _ = second.on_connect();
    let r = second.on_name_line(&mut reg, String::from("alice"));
    assert_eq!(r.err().expect("duplicate claim must fail"), HandshakeError::NameTaken);
    assert!(reg.contains_name(&String::from("alice")));
}

#[test]
fn two_clients_full_scenario() {
    let mut reg = Registry::new();
    let mut bus = Bus::new(32);

    // Client A connects and joins as alice.
    let mut a = Session::new();
    assert_eq!(a.on_connect().as_str(), "Welcome to budgetchat! What shall I call you?");
    let mut cur_a = bus.subscribe();
    let ha = a.on_name_line(&mut reg, String::from("alice")).expect("alice joins");
    assert_eq!(ha.presence.as_str(), "* The room contains: just you!");
    bus.publish(ha.join);

    // A's own join renders to nothing for A.
    let own_join = bus.poll(&mut cur_a).expect("a sees the published join");
    assert!(a.on_bus_event(&own_join).is_none());

    // Client B connects and joins as bob; the listing shows exactly alice.
    let mut b = Session::new();
    let _ = b.on_connect();
    let mut cur_b = bus.subscribe();
    let hb = b.on_name_line(&mut reg, String::from("bob")).expect("bob joins");
    assert_eq!(hb.presence.as_str(), "* The room contains: alice");
    bus.publish(hb.join);

    // A is told that bob entered; B does not hear its own join.
    let join_b = bus.poll(&mut cur_a).expect("a sees bob's join");
    assert_eq!(a.on_bus_event(&join_b).unwrap().as_str(), "* bob has entered the room");
    let own_join_b = bus.poll(&mut cur_b).expect("b sees its own join");
    assert!(b.on_bus_event(&own_join_b).is_none());

    // A sends a line: B receives the relay, A gets nothing echoed.
    let text = a.on_client_line(String::from("hi"));
    bus.publish(text);
    let text_for_b = bus.poll(&mut cur_b).expect("b sees the text");
    assert_eq!(b.on_bus_event(&text_for_b).unwrap().as_str(), "[alice] hi");
    let text_for_a = bus.poll(&mut cur_a).expect("a sees its own text");
    assert!(a.on_bus_event(&text_for_a).is_none());

    // B disconnects: A is notified and the name is claimable again.
    let leave = b.on_disconnect(&mut reg).expect("an active session leaves");
    bus.publish(leave);
    let leave_for_a = bus.poll(&mut cur_a).expect("a sees bob's leave");
    assert_eq!(a.on_bus_event(&leave_for_a).unwrap().as_str(), "* bob has left the room");
    assert!(reg.try_claim(&String::from("bob")));
}

#[test]
fn disconnect_before_naming_releases_nothing() {
    let mut reg = Registry::new();
    assert!(reg.try_claim(&String::from("alice")));
    let mut s = Session::new();
    let _ = s.on_connect();
    assert!(s.on_disconnect(&mut reg).is_none());
    assert!(reg.contains_name(&String::from("alice")));
}

#[test]
fn bus_subscription_is_not_retroactive() {
    let mut bus = Bus::new(32);
    bus.publish(Event::Join(String::from("early")));
    let mut cur = bus.subscribe();
    assert!(bus.poll(&mut cur).is_none());
}

#[test]
fn bus_delivers_in_publish_order() {
    let mut bus = Bus::new(32);
    let mut cur = bus.subscribe();
    bus.publish(Event::Join(String::from("alice")));
    bus.publish(Event::Leave(String::from("alice")));
    assert!(matches!(bus.poll(&mut cur), Some(Event::Join(n)) if n == "alice"));
    assert!(matches!(bus.poll(&mut cur), Some(Event::Leave(n)) if n == "alice"));
    assert!(bus.poll(&mut cur).is_none());
}

#[test]
fn lagging_cursor_skips_oldest_events() {
    let mut bus = Bus::new(2);
    let mut cur = bus.subscribe();
    bus.publish(Event::Join(String::from("a")));
    bus.publish(Event::Join(String::from("b")));
    bus.publish(Event::Join(String::from("c")));
    bus.publish(Event::Join(String::from("d")));
    // Two events over the bound of two: the oldest two are dropped.
    assert!(matches!(bus.poll(&mut cur), Some(Event::Join(n)) if n == "c"));
    assert!(matches!(bus.poll(&mut cur), Some(Event::Join(n)) if n == "d"));
    assert!(bus.poll(&mut cur).is_none());
}

#[test]
fn build_addr_joins_host_and_port() {
    assert_eq!(build_addr(String::from("127.0.0.1"), 8003).as_str(), "127.0.0.1:8003");
    assert_eq!(build_addr(String::from("localhost"), 0).as_str(), "localhost:0");
}
