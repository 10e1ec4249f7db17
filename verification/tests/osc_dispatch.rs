use tpt_av_control::bundle::{collect_messages, OscBundle, OscPacket};
use tpt_av_control::dispatch::OscRouter;
use tpt_av_control::message::{OscArg, OscMessage};

type Log = Vec<String>;

fn dispatch(router: &mut OscRouter<Log>, message: OscMessage) -> usize {
    let hits = router.matching_routes(&message.address);
    for &i in &hits {
        router.handler_mut(i).push(message.address.clone());
    }
    hits.len()
}

fn dispatch_packet(router: &mut OscRouter<Log>, packet: &OscPacket) -> usize {
    let mut messages = Vec::new();
    collect_messages(packet, &mut messages);
    messages.into_iter().map(|m| dispatch(router, m)).sum()
}

#[test]
fn routes_match_patterns() {
    let mut d: OscRouter<Log> = OscRouter::new();
    assert!(d.is_empty());
    d.add_route("/track/*/volume", Vec::new());
    d.add_route("/master/*", Vec::new());
    assert_eq!(d.patterns().len(), 2);

    assert_eq!(dispatch(&mut d, OscMessage::new("/track/3/volume", &[]).unwrap()), 1);
    assert_eq!(dispatch(&mut d, OscMessage::new("/master/gain", &[]).unwrap()), 1);
    assert_eq!(dispatch(&mut d, OscMessage::new("/other", &[]).unwrap()), 0);

    assert_eq!(d.handler_mut(0).as_slice(), ["/track/3/volume"]);
    assert_eq!(d.handler_mut(1).as_slice(), ["/master/gain"]);
}

#[test]
fn overlapping_routes_all_fire() {
    let mut d: OscRouter<Log> = OscRouter::new();
    d.add_route("/x", Vec::new());
    d.add_route("/*", Vec::new());
    let hits = dispatch(&mut d, OscMessage::new_unchecked("/x", vec![]));
    assert_eq!(hits, 2);
    assert_eq!(d.handler_mut(0).len(), 1);
    assert_eq!(d.handler_mut(1).len(), 1);
}

#[test]
fn add_route_replaces_same_pattern() {
    let mut d: OscRouter<Log> = OscRouter::new();
    d.add_route("/x", vec!["a".to_string()]);
    d.add_route("/x", Vec::new());
    assert_eq!(d.patterns().len(), 1);
    dispatch(&mut d, OscMessage::new_unchecked("/x", vec![OscArg::Nil]));
    assert_eq!(d.handler_mut(0).len(), 1);
}

#[test]
fn remove_route() {
    let mut d: OscRouter<Log> = OscRouter::new();
    d.add_route("/y", Vec::new());
    assert!(d.remove_route("/y"));
    assert!(!d.remove_route("/y"));
    assert!(d.is_empty());
}

#[test]
fn dispatches_bundles() {
    let mut d: OscRouter<Log> = OscRouter::new();
    d.add_route("/*", Vec::new());
    let bundle = OscPacket::Bundle(OscBundle::new(
        None,
        vec![
            OscPacket::Message(OscMessage::new_unchecked("/a", vec![])),
            OscPacket::Bundle(OscBundle::new(None, vec![OscPacket::Message(OscMessage::new_unchecked("/b", vec![]))])),
        ],
    ));
    assert_eq!(dispatch_packet(&mut d, &bundle), 2);
    assert_eq!(d.handler_mut(0).as_slice(), ["/a", "/b"]);
}

#[test]
fn patterns_keep_registration_order() {
    let mut d: OscRouter<u8> = OscRouter::new();
    d.add_route("/a", 1);
    d.add_route("/b", 2);
    d.add_route("/a", 3);
    assert_eq!(d.patterns(), vec!["/b", "/a"]);
    assert_eq!(*d.handler_mut(1), 3);
    assert_eq!(d.len(), 2);
    assert_eq!(d.matching_routes("/a"), vec![1]);
}
