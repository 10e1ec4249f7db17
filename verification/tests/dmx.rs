use tpt_av_control::dmx::{DmxUniverse, DMX_CHANNELS};
use tpt_av_control::fixture::{Fixture, FixtureChannel, FixtureDefinition};
use tpt_av_control::universe::UniverseManager;

#[test]
fn set_get_channels() {
    let mut u = DmxUniverse::new(1);
    u.set_channel(0, 255);
    u.set_channel(511, 128);
    assert_eq!(u.get_channel(0), 255);
    assert_eq!(u.get_channel(511), 128);
    assert_eq!(u.get_channel(512), 0, "out-of-range reads 0");
    assert!(u.try_set_channel(512, 1).is_err());
}

#[test]
fn bulk_set_truncates() {
    let mut u = DmxUniverse::new(0);
    u.set_channels(510, &[1, 2, 3, 4, 5]);
    assert_eq!(u.get_channel(509), 0);
    assert_eq!(u.get_channel(510), 1);
    assert_eq!(u.get_channel(511), 2);
}

#[test]
fn blackout_helpers() {
    let mut u = DmxUniverse::new(7);
    assert!(u.is_blackout());
    u.set_channel(10, 5);
    assert!(!u.is_blackout());
    u.clear();
    assert!(u.is_blackout());
    assert_eq!(u.universe, 7);
}

#[test]
fn try_set_channel_writes_in_range() {
    let mut u = DmxUniverse::new(2);
    assert!(u.try_set_channel(511, 9).is_ok());
    assert_eq!(u.get_channel(511), 9);
    assert_eq!(u.channels.len(), DMX_CHANNELS);
    u.set_channels(600, &[1]);
    assert!(u.is_blackout() == false);
}

#[test]
fn creates_on_demand() {
    let mut m = UniverseManager::new();
    assert!(m.is_empty());
    m.get_or_create(3).set_channel(0, 99);
    assert_eq!(m.len(), 1);
    assert_eq!(m.get(3).unwrap().get_channel(0), 99);
    assert_eq!(m.get_or_create(3).get_channel(0), 99);
}

#[test]
fn merge_and_iterate_sorted() {
    let mut m = UniverseManager::new();
    for n in [7u16, 1, 4] {
        let mut u = DmxUniverse::new(n);
        u.set_channel(0, n as u8);
        m.insert(u);
    }
    let order: Vec<u16> = m.iter().into_iter().map(|u| u.universe).collect();
    assert_eq!(order, vec![1, 4, 7]);
    let mut incoming = DmxUniverse::new(4);
    incoming.set_channel(1, 42);
    m.merge(&incoming);
    assert_eq!(m.get(4).unwrap().get_channel(1), 42);
}

#[test]
fn get_mut_and_insert_replace() {
    let mut m = UniverseManager::new();
    assert!(m.get(1).is_none());
    assert!(m.get_mut(1).is_none());
    m.insert(DmxUniverse::new(1));
    m.get_mut(1).unwrap().set_channel(5, 6);
    assert_eq!(m.get(1).unwrap().get_channel(5), 6);
    m.insert(DmxUniverse::new(1));
    assert_eq!(m.get(1).unwrap().get_channel(5), 0);
    assert_eq!(m.len(), 1);
}

#[test]
fn profiles_have_expected_footprints() {
    assert_eq!(FixtureDefinition::dimmer().footprint(), 1);
    assert_eq!(FixtureDefinition::rgb().footprint(), 3);
    assert_eq!(FixtureDefinition::rgbw().footprint(), 4);
    assert!(FixtureDefinition::new("empty", vec![]).is_err());
}

#[test]
fn patching_validates_address() {
    assert!(Fixture::patch(FixtureDefinition::rgbw(), "par 1", 1, 509).is_err());
    let fixture = Fixture::patch(FixtureDefinition::rgbw(), "par 1", 1, 508).unwrap();
    assert_eq!(fixture.footprint_end(), 512);
}

#[test]
fn color_and_intensity_writes() {
    let mut u = DmxUniverse::new(1);
    let dimmer = Fixture::patch(FixtureDefinition::dimmer(), "d1", 1, 0).unwrap();
    let par = Fixture::patch(FixtureDefinition::rgbw(), "par 1", 1, 10).unwrap();
    dimmer.set_intensity(&mut u, 200);
    par.set_color(&mut u, 255, 0, 10, 0);
    assert_eq!(u.get_channel(0), 200);
    assert_eq!(u.get_channel(10), 255);
    assert_eq!(u.get_channel(11), 0);
    assert_eq!(u.get_channel(12), 10);
    assert_eq!(u.get_channel(13), 0);
    dimmer.set_color(&mut u, 1, 2, 3, 4);
    assert_eq!(u.get_channel(0), 200);
    assert_eq!(par.get_channel(&u, FixtureChannel::Green), Some(0));
    assert_eq!(par.get_channel(&u, FixtureChannel::Pan), None);
}

#[test]
fn position_writes_pan_and_tilt() {
    let def = FixtureDefinition::new(
        "mover",
        vec![FixtureChannel::Pan, FixtureChannel::Tilt, FixtureChannel::Dimmer],
    )
    .unwrap();
    assert_eq!(def.offset(FixtureChannel::Tilt), Some(1));
    assert_eq!(def.offset(FixtureChannel::Red), None);
    let mover = Fixture::patch(def, "mover 1", 0, 100).unwrap();
    let mut u = DmxUniverse::new(0);
    mover.set_position(&mut u, 30, 220);
    mover.set_intensity(&mut u, 128);
    assert_eq!(u.get_channel(100), 30);
    assert_eq!(u.get_channel(101), 220);
    assert_eq!(u.get_channel(102), 128);
    assert_eq!(mover.get_channel(&u, FixtureChannel::Tilt), Some(220));
}

#[test]
fn dmx_set_and_get_channel_are_allocation_free() {
    // Heap use is not counted here; the channel values are.
    let mut universe = DmxUniverse::new(1);
    universe.set_channel(0, 255);
    universe.set_channel(511, 128);
    assert_eq!(universe.get_channel(0), 255);
    assert_eq!(universe.get_channel(511), 128);
}

#[test]
fn iteration_orders_by_each_universes_own_number() {
    let mut m = UniverseManager::new();
    m.get_or_create(1);
    m.get_or_create(2);
    m.get_mut(1).unwrap().universe = 5;
    let order: Vec<u16> = m.iter().iter().map(|u| u.universe).collect();
    assert_eq!(order, vec![2, 5]);
}
