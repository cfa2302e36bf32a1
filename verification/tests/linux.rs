//! Identity, discovery and opening, over listings that are made up here.

use vrg9080_protocol::device_session::{deadline, verify_path};
use vrg9080_protocol::discovery::{ends_search, identity_at, ListedEntry, SysfsEntry};
use vrg9080_protocol::identity::matching_identity;
use vrg9080_protocol::node::{node_name, uevent_path_of, valid_node_name};
use vrg9080_protocol::open::{OpenAction, OpenOutcome, OpenPhase, Opening, RawInfo};
use vrg9080_protocol::os::{OsError, OsErrorKind};
use vrg9080_protocol::{discover_devices, DeviceSession, StartupMode, TransportError};

const SUPPORTED: &str = "HID_ID=0003:00002C30:00001050\n";

fn os_error(kind: OsErrorKind, code: i32) -> OsError {
    OsError {
        kind,
        code: Some(code),
        text: format!("os error {code}"),
    }
}

fn node(name: &str, uevent: &str) -> ListedEntry {
    Ok(SysfsEntry {
        name: name.as_bytes().to_vec(),
        uevent: Ok(uevent.to_string()),
    })
}

fn unreadable(name: &str, kind: OsErrorKind, code: i32) -> ListedEntry {
    Ok(SysfsEntry {
        name: name.as_bytes().to_vec(),
        uevent: Err(os_error(kind, code)),
    })
}

fn paths(entries: Vec<ListedEntry>) -> Vec<String> {
    discover_devices(Ok(entries))
        .unwrap()
        .iter()
        .map(|device| device.path().to_string())
        .collect()
}

#[test]
fn identity_requires_exact_hex_usb_vendor_product() {
    for text in [
        "HID_ID=0003:00002C30:00001050",
        "HID_NAME=untrusted\nHID_ID=3:2c30:1050\n",
    ] {
        assert!(matching_identity(text));
    }
    for text in [
        "",
        "HID_ID=3:2c30:1051",
        "HID_ID=3:2c31:1050",
        "HID_ID=5:2c30:1050",
        "HID_ID=3:2c30:1050:0",
        "HID_ID=+3:2c30:1050",
        "HID_NAME=VRG9080",
        "HID_ID=3:2c30:1050\nHID_ID=3:2c30:1050",
    ] {
        assert!(!matching_identity(text), "{text}");
    }
}

#[test]
fn discovery_and_explicit_path_refuse_mismatched_sysfs_identity() {
    let identities = [
        ("hidraw9", "HID_ID=0003:00002C30:00001050\n"),
        (
            "hidraw0",
            "HID_ID=0003:00001234:00001050\nHID_NAME=VRG9080\n",
        ),
        ("hidraw1", "HID_ID=0003:00002C30:00001051\n"),
        ("hidraw2", "HID_ID=0005:00002C30:00001050\n"),
    ];
    let entries = identities
        .iter()
        .map(|(name, uevent)| node(name, uevent))
        .collect();
    assert_eq!(paths(entries), ["/dev/hidraw9"]);

    // The path first, then the identity that its node publishes.
    let verify = |path: &str| -> Result<(), TransportError> {
        let (mut opening, action) = DeviceSession::open(path.as_bytes())?;
        let OpenAction::ReadIdentity { path: uevent } = action else {
            panic!("identity must be read first")
        };
        let text = identities
            .iter()
            .find(|(name, _)| uevent == format!("/sys/class/hidraw/{name}/device/uevent"))
            .map(|(_, text)| text.to_string())
            .unwrap();
        match opening.advance(OpenOutcome::Identity(Ok(text))) {
            OpenAction::OpenNode { path: opened } => {
                assert_eq!(opened, path);
                Ok(())
            }
            OpenAction::Refused(error) => Err(error),
            action => panic!("unexpected action: {action:?}"),
        }
    };
    assert!(verify("/dev/hidraw9").is_ok());
    for path in ["/dev/hidraw0", "/dev/hidraw1", "/dev/hidraw2"] {
        assert!(matches!(
            verify(path),
            Err(TransportError::IdentityMismatch(_))
        ));
    }
    for path in [
        "hidraw9",
        "/tmp/hidraw9",
        "/dev/../dev/hidraw9",
        "/dev/hidraw",
        "/dev/hidrawx",
    ] {
        assert!(matches!(
            verify(path),
            Err(TransportError::InvalidPath(_))
        ));
    }
}

#[test]
fn identity_lines_and_fields_have_their_edges() {
    for text in [
        "HID_ID=3:2c30:1050\r\n",
        "\n\nHID_ID=00000000000000000003:2C30:1050\nX",
        " HID_ID=9:9:9\nHID_ID=3:2c30:1050",
    ] {
        assert!(matching_identity(text), "{text:?}");
    }
    for text in [
        "HID_ID=3:2c30:1050\r",
        "HID_ID=3:2c30",
        "HID_ID=3::1050",
        "HID_ID=",
        "HID_ID",
        "HID_ID=3:2c30:1050 ",
        "HID_ID=100000003:2c30:1050",
        "HID_ID=3:2c30:0x1050",
        "HID_ID=3:2c30:1050\nHID_ID=",
        "HID_ID=\u{ff13}:2c30:1050",
    ] {
        assert!(!matching_identity(text), "{text:?}");
    }
}

#[test]
fn another_line_does_not_change_the_identity() {
    for text in [SUPPORTED, "HID_ID=3:2c30:1051\n", ""] {
        let line = "HID_NAME=VRG9080 HID_ID=3:2c30:1050\n";
        for longer in [format!("{line}{text}"), format!("{text}{line}"), format!("{line}{text}{line}")] {
            assert_eq!(matching_identity(&longer), matching_identity(text));
        }
    }
}

#[test]
fn node_names_are_hidraw_and_digits() {
    for name in ["hidraw0", "hidraw12", "hidraw007"] {
        assert!(valid_node_name(name.as_bytes()), "{name}");
    }
    for name in ["", "hidraw", "hidraw-1", "hidraw1a", "Hidraw1", "xhidraw1", "hidra1"] {
        assert!(!valid_node_name(name.as_bytes()), "{name}");
    }
    assert!(!valid_node_name(b"hidraw\xb2"));
    assert_eq!(uevent_path_of(b"hidraw12"), "/sys/class/hidraw/hidraw12/device/uevent");
}

#[test]
fn only_direct_paths_have_a_node_name() {
    assert_eq!(node_name(b"/dev/hidraw3"), Some(b"hidraw3".to_vec()));
    assert_eq!(verify_path(b"/dev/hidraw3"), Ok(b"hidraw3".to_vec()));
    for path in ["/dev/hidraw3/", "/dev//hidraw3", "/dev/./hidraw3", "/dev/", "", "/DEV/hidraw3"] {
        assert_eq!(node_name(path.as_bytes()), None, "{path}");
        assert_eq!(
            verify_path(path.as_bytes()),
            Err(TransportError::InvalidPath(path.as_bytes().to_vec()))
        );
    }
}

#[test]
fn devices_come_in_path_order_whatever_the_entry_order() {
    let entries = |order: [usize; 4]| -> Vec<ListedEntry> {
        let names = ["hidraw10", "hidraw2", "hidraw1", "hidraw9"];
        order.iter().map(|index| node(names[*index], SUPPORTED)).collect()
    };
    let expected = ["/dev/hidraw1", "/dev/hidraw10", "/dev/hidraw2", "/dev/hidraw9"];
    assert_eq!(paths(entries([0, 1, 2, 3])), expected);
    assert_eq!(paths(entries([3, 2, 1, 0])), expected);
    assert_eq!(paths(entries([2, 0, 3, 1])), expected);
}

#[test]
fn discovery_passes_over_other_entries_and_unplugged_nodes() {
    let entries = vec![
        unreadable("hidraw4", OsErrorKind::NotFound, 2),
        unreadable("not-a-node", OsErrorKind::PermissionDenied, 13),
        node("hidrawx", SUPPORTED),
        node("hidraw5", SUPPORTED),
    ];
    assert_eq!(paths(entries), ["/dev/hidraw5"]);
    assert_eq!(
        discover_devices(Err(os_error(OsErrorKind::NotFound, 2))),
        Ok(vec![])
    );
}

#[test]
fn discovery_stops_at_the_first_failure() {
    assert_eq!(
        discover_devices(Err(os_error(OsErrorKind::PermissionDenied, 13))),
        Err(TransportError::Io {
            operation: "enumerate hidraw nodes",
            path: "/sys/class/hidraw".to_string(),
            source: os_error(OsErrorKind::PermissionDenied, 13),
        })
    );
    assert_eq!(
        discover_devices(Ok(vec![
            node("hidraw0", SUPPORTED),
            Err(os_error(OsErrorKind::Other, 5)),
            unreadable("hidraw1", OsErrorKind::PermissionDenied, 13),
        ])),
        Err(TransportError::Io {
            operation: "enumerate hidraw node",
            path: "/sys/class/hidraw".to_string(),
            source: os_error(OsErrorKind::Other, 5),
        })
    );
    assert_eq!(
        discover_devices(Ok(vec![
            unreadable("hidraw1", OsErrorKind::PermissionDenied, 13),
            Err(os_error(OsErrorKind::Other, 5)),
        ])),
        Err(TransportError::Io {
            operation: "read HID identity",
            path: "/sys/class/hidraw/hidraw1/device/uevent".to_string(),
            source: os_error(OsErrorKind::PermissionDenied, 13),
        })
    );
}

#[test]
fn only_failures_that_matter_end_the_search() {
    assert!(ends_search(&Err(os_error(OsErrorKind::NotFound, 2))));
    assert!(ends_search(&unreadable("hidraw1", OsErrorKind::PermissionDenied, 13)));
    assert!(!ends_search(&unreadable("hidraw1", OsErrorKind::NotFound, 2)));
    assert!(!ends_search(&unreadable("other", OsErrorKind::PermissionDenied, 13)));
    assert!(!ends_search(&node("hidraw1", "")));
}

#[test]
fn nothing_starts_before_the_node_is_verified() {
    for count in 0..4 {
        let (mut opening, _) = DeviceSession::open(b"/dev/hidraw6").unwrap();
        for outcome in outcomes().into_iter().take(count) {
            opening.advance(outcome);
        }
        assert!(opening.start().is_none());
    }
    let (opening, _) = open_with(3, OpenOutcome::Identified(Ok(RawInfo { bus: 1, ..supported() })));
    assert!(opening.start().is_none());
    let (opening, _) = open_with(4, OpenOutcome::Opened(Ok(())));
    assert!(opening.start().is_some());
}

#[test]
fn identity_of_one_node_is_read_from_its_text() {
    assert_eq!(identity_at(b"hidraw0", Ok(SUPPORTED.to_string())), Ok(true));
    assert_eq!(identity_at(b"hidraw0", Ok(String::new())), Ok(false));
    assert_eq!(
        identity_at(b"hidraw0", Err(os_error(OsErrorKind::InvalidData, 0))),
        Err(TransportError::Io {
            operation: "read HID identity",
            path: "/sys/class/hidraw/hidraw0/device/uevent".to_string(),
            source: os_error(OsErrorKind::InvalidData, 0),
        })
    );
}

#[test]
fn connecting_needs_exactly_one_device() {
    assert_eq!(
        DeviceSession::connect(Ok(vec![])),
        Err(TransportError::NoDevice)
    );
    assert_eq!(
        DeviceSession::connect(Err(os_error(OsErrorKind::NotFound, 2))),
        Err(TransportError::NoDevice)
    );
    let (opening, action) = DeviceSession::connect_with_startup(
        Ok(vec![node("hidraw7", SUPPORTED), node("hidraw1", "")]),
        StartupMode::FirstTwo,
    )
    .unwrap();
    assert_eq!(opening.mode(), StartupMode::FirstTwo);
    assert_eq!(
        action,
        OpenAction::ReadIdentity {
            path: "/sys/class/hidraw/hidraw7/device/uevent".to_string()
        }
    );
    let (opening, _) = DeviceSession::connect(Ok(vec![node("hidraw7", SUPPORTED)])).unwrap();
    assert_eq!(opening.mode(), StartupMode::Full);
    let Err(TransportError::MultipleDevices(devices)) = DeviceSession::connect(Ok(vec![
        node("hidraw7", SUPPORTED),
        node("hidraw3", SUPPORTED),
    ])) else {
        panic!("one of several devices was chosen")
    };
    assert_eq!(devices.len(), 2);
    assert_eq!(devices[0].path(), "/dev/hidraw3");
    assert_eq!(devices[1].clone().path(), "/dev/hidraw7");
    assert!(matches!(
        DeviceSession::connect(Err(os_error(OsErrorKind::PermissionDenied, 13))),
        Err(TransportError::Io { operation: "enumerate hidraw nodes", .. })
    ));
}

fn supported() -> RawInfo {
    RawInfo {
        bus: 3,
        vendor: 0x2c30,
        product: 0x1050,
    }
}

fn outcomes() -> [OpenOutcome; 4] {
    [
        OpenOutcome::Identity(Ok(SUPPORTED.to_string())),
        OpenOutcome::Opened(Ok(())),
        OpenOutcome::Inspected(Ok(true)),
        OpenOutcome::Identified(Ok(supported())),
    ]
}

fn open_with(changed: usize, outcome: OpenOutcome) -> (Opening, OpenAction) {
    let (mut opening, mut action) =
        DeviceSession::open_with_startup(b"/dev/hidraw6", StartupMode::StreamOnly).unwrap();
    let mut outcome = Some(outcome);
    for (index, usual) in outcomes().into_iter().enumerate() {
        let next = if index == changed {
            outcome.take().unwrap()
        } else {
            usual
        };
        assert!(opening.is_expected(&next));
        action = opening.advance(next);
        if matches!(action, OpenAction::Refused(_)) {
            break;
        }
    }
    (opening, action)
}

#[test]
fn a_verified_node_becomes_ready() {
    let (opening, action) = open_with(4, OpenOutcome::Opened(Ok(())));
    assert_eq!(opening.phase(), OpenPhase::Ready);
    assert_eq!(opening.mode(), StartupMode::StreamOnly);
    let OpenAction::Ready(device) = action else {
        panic!("not ready")
    };
    assert_eq!(device.path(), "/dev/hidraw6");
    for outcome in outcomes() {
        assert!(!opening.is_expected(&outcome));
    }
}

#[test]
fn opening_asks_in_order() {
    let (mut opening, _) = DeviceSession::open(b"/dev/hidraw6").unwrap();
    assert!(!opening.is_expected(&OpenOutcome::Opened(Ok(()))));
    let [identity, opened, inspected, _] = outcomes();
    assert_eq!(
        opening.advance(identity),
        OpenAction::OpenNode {
            path: "/dev/hidraw6".to_string()
        }
    );
    assert_eq!(opening.advance(opened), OpenAction::Inspect);
    assert_eq!(opening.advance(inspected), OpenAction::Identify);
}

#[test]
fn every_mismatch_refuses_the_node() {
    let mismatch = OpenAction::Refused(TransportError::IdentityMismatch("/dev/hidraw6".to_string()));
    assert_eq!(open_with(0, OpenOutcome::Identity(Ok(String::new()))).1, mismatch);
    assert_eq!(open_with(2, OpenOutcome::Inspected(Ok(false))).1, mismatch);
    for info in [
        RawInfo { bus: 5, ..supported() },
        RawInfo { vendor: 0x2c31, ..supported() },
        RawInfo { product: -1, ..supported() },
    ] {
        let (opening, action) = open_with(3, OpenOutcome::Identified(Ok(info)));
        assert_eq!(action, mismatch);
        assert_eq!(opening.phase(), OpenPhase::Refused);
    }
}

#[test]
fn every_failure_to_open_names_its_operation() {
    let failure = || os_error(OsErrorKind::PermissionDenied, 13);
    let refused = |operation: &'static str, path: &str| {
        OpenAction::Refused(TransportError::Io {
            operation,
            path: path.to_string(),
            source: failure(),
        })
    };
    assert_eq!(
        open_with(0, OpenOutcome::Identity(Err(failure()))).1,
        refused("read HID identity", "/sys/class/hidraw/hidraw6/device/uevent")
    );
    assert_eq!(
        open_with(1, OpenOutcome::Opened(Err(failure()))).1,
        refused("open hidraw node", "/dev/hidraw6")
    );
    assert_eq!(
        open_with(2, OpenOutcome::Inspected(Err(failure()))).1,
        refused("stat hidraw node", "/dev/hidraw6")
    );
    assert_eq!(
        open_with(3, OpenOutcome::Identified(Err(failure()))).1,
        refused("verify opened HID identity", "/dev/hidraw6")
    );
}

#[test]
fn a_deadline_needs_a_clock_that_can_hold_it() {
    assert_eq!(deadline(Some(7)), Ok(7));
    assert_eq!(deadline::<u8>(None), Err(TransportError::InvalidTimeout));
}
