use combustion_probe::finder::{
    matches_vendor, Advertisement, CombustionFinder, DiscoverError, ScanAction, ScanEvent,
    ScanState, SETTLE_DELAY_MS, VENDOR_ID,
};

fn advert(address: u64, ids: Option<Vec<u16>>) -> Advertisement {
    Advertisement { address, manufacturer_ids: ids, services: vec![] }
}

#[test]
fn vendor_identifier() {
    assert_eq!(VENDOR_ID, 0x09C7);
    assert_eq!(SETTLE_DELAY_MS, 2000);
}

#[test]
fn an_advertisement_with_the_vendor_matches() {
    assert!(matches_vendor(&advert(1, Some(vec![0x09C7]))));
    assert!(matches_vendor(&advert(1, Some(vec![0x004C, 0x09C7, 0x0006]))));
}

#[test]
fn an_advertisement_without_the_vendor_does_not_match() {
    assert!(!matches_vendor(&advert(1, None)));
    assert!(!matches_vendor(&advert(1, Some(vec![]))));
    assert!(!matches_vendor(&advert(1, Some(vec![0x004C, 0x09C8, 0xC709]))));
}

#[test]
fn a_new_peripheral_is_given_time_to_settle() {
    let mut finder = CombustionFinder::new();
    let action = finder.discover(ScanEvent::Seen { address: 0xC0FFEE });
    assert!(matches!(action, ScanAction::Settle { address: 0xC0FFEE, millis: 2000 }));
    assert_eq!(finder.state(), ScanState::Scanning);
}

#[test]
fn the_first_probe_ends_the_scan() {
    let mut finder = CombustionFinder::new();
    assert!(matches!(
        finder.discover(ScanEvent::Inspected(advert(1, Some(vec![0x004C])))),
        ScanAction::Listen
    ));
    assert!(matches!(finder.discover(ScanEvent::Inspected(advert(2, None))), ScanAction::Listen));
    assert_eq!(finder.state(), ScanState::Scanning);
    let found = finder.discover(ScanEvent::Inspected(Advertisement {
        address: 3,
        manufacturer_ids: Some(vec![0x09C7]),
        services: vec![7, 8],
    }));
    match found {
        ScanAction::Found(handle) => {
            assert_eq!(handle.address(), 3);
            assert_eq!(handle.services(), &vec![7u128, 8]);
        }
        other => panic!("no handle: {:?}", other),
    }
    assert_eq!(finder.state(), ScanState::Found);
    assert!(matches!(
        finder.discover(ScanEvent::Inspected(advert(4, Some(vec![0x09C7])))),
        ScanAction::Halt
    ));
    assert!(matches!(finder.discover(ScanEvent::Cancelled), ScanAction::Halt));
    assert_eq!(finder.state(), ScanState::Found);
}

#[test]
fn the_end_of_the_stream_fails_the_scan() {
    let mut finder = CombustionFinder::new();
    finder.discover(ScanEvent::Seen { address: 1 });
    finder.discover(ScanEvent::Inspected(advert(1, None)));
    assert!(matches!(
        finder.discover(ScanEvent::Ended),
        ScanAction::Fail(DiscoverError::DiscoveryFailed)
    ));
    assert_eq!(finder.state(), ScanState::Failed(DiscoverError::DiscoveryFailed));
    assert!(matches!(finder.discover(ScanEvent::Cancelled), ScanAction::Halt));
    assert_eq!(finder.state(), ScanState::Failed(DiscoverError::DiscoveryFailed));
}

#[test]
fn cancellation_before_a_probe_is_found() {
    let mut finder = CombustionFinder::new();
    assert!(matches!(
        finder.discover(ScanEvent::Cancelled),
        ScanAction::Fail(DiscoverError::Cancelled)
    ));
    assert_eq!(finder.state(), ScanState::Failed(DiscoverError::Cancelled));
    assert!(matches!(
        finder.discover(ScanEvent::Inspected(advert(1, Some(vec![0x09C7])))),
        ScanAction::Halt
    ));
    assert_eq!(finder.state(), ScanState::Failed(DiscoverError::Cancelled));
}

#[test]
fn cancellation_during_the_settle_delay() {
    let mut finder = CombustionFinder::new();
    finder.discover(ScanEvent::Seen { address: 1 });
    finder.discover(ScanEvent::Inspected(advert(9, Some(vec![0x1234]))));
    finder.discover(ScanEvent::Seen { address: 2 });
    assert!(matches!(
        finder.discover(ScanEvent::Cancelled),
        ScanAction::Fail(DiscoverError::Cancelled)
    ));
    assert!(matches!(
        finder.discover(ScanEvent::Inspected(advert(2, Some(vec![0x09C7])))),
        ScanAction::Halt
    ));
    assert!(matches!(finder.discover(ScanEvent::Ended), ScanAction::Halt));
    assert_eq!(finder.state(), ScanState::Failed(DiscoverError::Cancelled));
}
