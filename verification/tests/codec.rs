//! Hardware-free tests using only locally generated protocol inputs.

use vrg9080_protocol::binary32::Binary32;
use vrg9080_protocol::codec::{require_layout, sum8};
use vrg9080_protocol::{
    parse_imu_report, parse_report, parse_status_report, Event, ImuChannel, ParseError,
    ReportHeader,
};

fn checksum(raw: &mut [u8; 64]) {
    let length = usize::from(raw[3]);
    raw[length] = raw[..length].iter().fold(0_u8, |sum, byte| sum.wrapping_add(*byte));
}

fn imu() -> [u8; 64] {
    let mut raw = [0; 64];
    raw[..4].copy_from_slice(&[0, 1, 0x0a, 44]);
    let values = [1.0_f32, 2.0, 3.0, 90.0, -45.0, 0.0, 4.0, 5.0, 6.0];
    for (index, value) in values.iter().enumerate() {
        let offset = 4 + 4 * index;
        raw[offset..offset + 4].copy_from_slice(&value.to_le_bytes());
    }
    raw[40..42].copy_from_slice(&1234_u16.to_le_bytes());
    raw[42..44].copy_from_slice(&365_u16.to_le_bytes());
    checksum(&mut raw);
    raw
}

fn status(mask: u8) -> [u8; 64] {
    let mut raw = [0; 64];
    raw[..9].copy_from_slice(&[0, 1, 0x0b, 9, mask, 1, 30, 31, 2]);
    checksum(&mut raw);
    raw
}

fn response(command: u8, status: u8, data: &[u8]) -> [u8; 64] {
    let mut raw = [0; 64];
    let length = 5 + data.len();
    raw[..4].copy_from_slice(&[0xaa, 0x11, command, length as u8]);
    raw[4..length - 1].copy_from_slice(data);
    raw[length - 1] = status;
    checksum(&mut raw);
    raw
}

fn floats(vector: [Binary32; 3]) -> [f32; 3] {
    vector.map(|value| f32::from_bits(value.bits))
}

#[test]
fn synthetic_conformance_vector() {
    let raw = imu();
    assert_eq!(raw[44], 0x86);
    let frame = parse_imu_report(&raw).unwrap();
    assert_eq!((frame.header0, frame.flags, frame.version), (0, 0, 1));
    assert_eq!(floats(frame.acceleration_g), [1.0, 2.0, 3.0]);
    assert_eq!(floats(frame.angular_velocity_deg_s), [90.0, -45.0, 0.0]);
    assert_eq!(floats(frame.magnetic_field_raw), [4.0, 5.0, 6.0]);
    assert_eq!(frame.timestamp_ticks, 1234);
    assert_eq!(frame.temperature_tenths_c, 365);
    assert_eq!(f32::from(frame.temperature_tenths_c) / 10.0, 36.5);
    let radians = floats(frame.angular_velocity_deg_s).map(f32::to_radians);
    assert!((radians[0] - std::f32::consts::FRAC_PI_2).abs() < 1e-6);
    assert!((radians[1] + std::f32::consts::FRAC_PI_4).abs() < 1e-6);
    assert_eq!(radians[2], 0.0);
    assert_eq!(parse_report(&raw), Ok(Event::Imu(frame)));
}

#[test]
fn size_version_type_and_length_errors_are_distinct() {
    for size in [0, 4, 63, 65, 128] {
        assert_eq!(
            parse_imu_report(&vec![0; size]),
            Err(ParseError::WrongInputSize { actual: size })
        );
    }
    for version in [0, 2, 15] {
        let mut raw = imu();
        raw[1] = version;
        checksum(&mut raw);
        assert_eq!(
            parse_imu_report(&raw),
            Err(ParseError::UnsupportedVersion { version })
        );
    }
    let mut raw = imu();
    raw[2] = 0x0b;
    checksum(&mut raw);
    assert_eq!(
        parse_imu_report(&raw),
        Err(ParseError::WrongReportType {
            expected: 10,
            actual: 11
        })
    );
    raw[2] = 0x0a;
    raw[3] = 43;
    checksum(&mut raw);
    assert_eq!(
        parse_imu_report(&raw),
        Err(ParseError::WrongProtocolLength {
            expected: 44,
            actual: 43
        })
    );
    for length in [0, 3, 64, 255] {
        raw[3] = length;
        assert_eq!(
            parse_report(&raw),
            Err(ParseError::InvalidProtocolLength { actual: length })
        );
    }
}

#[test]
fn checksum_checked_and_padding_ignored() {
    let mut raw = imu();
    raw[5] ^= 0x01;
    assert!(matches!(
        parse_imu_report(&raw),
        Err(ParseError::ChecksumMismatch { .. })
    ));
    let mut raw = imu();
    raw[45..].fill(0xff);
    assert_eq!(parse_imu_report(&raw), parse_imu_report(&imu()));
}

#[test]
fn preserves_all_high_flags_and_header() {
    for flags in (0..=0xf0).step_by(16) {
        let mut raw = imu();
        raw[0] = 0x72;
        raw[1] = flags | 1;
        checksum(&mut raw);
        let frame = parse_imu_report(&raw).unwrap();
        assert_eq!(
            (frame.header0, frame.flags, frame.version),
            (0x72, flags, 1)
        );
    }
}

#[test]
fn validates_every_float_channel_and_boundary() {
    for (index, offset) in (4..40).step_by(4).enumerate() {
        for invalid in [f32::NAN, f32::INFINITY, f32::NEG_INFINITY, 1.1e9, -1.1e9] {
            let mut raw = imu();
            raw[offset..offset + 4].copy_from_slice(&invalid.to_le_bytes());
            checksum(&mut raw);
            let channel = [
                ImuChannel::Acceleration,
                ImuChannel::AngularVelocity,
                ImuChannel::MagneticField,
            ][index / 3];
            assert_eq!(
                parse_imu_report(&raw),
                Err(ParseError::InvalidFloat {
                    channel,
                    axis: index % 3
                })
            );
        }
        for valid in [1e9_f32, -1e9, 0.0, -0.0] {
            let mut raw = imu();
            raw[offset..offset + 4].copy_from_slice(&valid.to_le_bytes());
            checksum(&mut raw);
            assert!(parse_imu_report(&raw).is_ok());
        }
    }
}

#[test]
fn unsigned_little_endian_fields_do_not_track_wraparound() {
    let mut raw = imu();
    raw[40..44].copy_from_slice(&[0xfe, 0xff, 0x80, 0xab]);
    checksum(&mut raw);
    let frame = parse_imu_report(&raw).unwrap();
    assert_eq!(frame.timestamp_ticks, 65534);
    assert_eq!(frame.temperature_tenths_c, 0xab80);
    raw[40..42].copy_from_slice(&[1, 0]);
    checksum(&mut raw);
    assert_eq!(parse_imu_report(&raw).unwrap().timestamp_ticks, 1);
}

#[test]
fn all_status_masks_select_only_their_fields() {
    for mask in 0..=255 {
        let parsed = parse_status_report(&status(mask)).unwrap();
        assert_eq!(parsed.mask, mask);
        assert_eq!(parsed.proximity, (mask & 1 != 0).then_some(1));
        assert_eq!(parsed.status_a, (mask & 2 != 0).then_some(30));
        assert_eq!(parsed.status_b, (mask & 4 != 0).then_some(31));
        assert_eq!(parsed.event, (mask & 8 != 0).then_some(2));
        assert_eq!(parsed.acknowledgement_requested, mask & 0x80 != 0);
        assert_eq!(parse_report(&status(mask)), Ok(Event::Status(parsed)));
    }
}

#[test]
fn published_status_and_response_vectors() {
    let vectors: &[&[u8]] = &[
        &[0, 1, 0x0b, 9, 1, 1, 0x1e, 0x1e, 2, 0x55],
        &[0, 1, 0x0b, 9, 0x80, 0, 0x1e, 0x1e, 2, 0xd3],
        &[0xaa, 0x11, 0x8c, 5, 0, 0x4c],
        &[0xaa, 0x11, 0x4a, 6, 1, 0, 0x0c],
    ];
    for prefix in vectors {
        let mut raw = [0; 64];
        raw[..prefix.len()].copy_from_slice(prefix);
        assert!(parse_report(&raw).is_ok());
    }
}

#[test]
fn startup_success_failure_and_payload_redaction() {
    let commands = [
        0x8c, 0x8d, 0x80, 1, 0x7f, 2, 0x40, 0x47, 0x86, 0x4e, 0x4f, 0x81,
    ];
    for command in commands {
        for status in [0, 7, 255] {
            let data = b"SYNTHETIC_IDENTIFICATION_DO_NOT_EXPOSE";
            let event = parse_report(&response(command, status, data)).unwrap();
            let Event::StartupResponse(parsed) = event else {
                panic!("wrong event")
            };
            assert_eq!((parsed.command_id, parsed.status), (command, status));
            // Distinct identification payloads must yield identical public values,
            // including Debug. No raw bytes survive parsing.
            assert_eq!(
                event,
                parse_report(&response(command, status, b"other data")).unwrap()
            );
            assert!(!format!("{event:?}").contains("SYNTHETIC"));
        }
    }
}

#[test]
fn proximity_response_value_exists_only_on_success() {
    for status in [0, 1, 255] {
        let Event::CurrentProximity(parsed) = parse_report(&response(0x4a, status, &[42])).unwrap()
        else {
            panic!("wrong event")
        };
        assert_eq!(parsed.status, status);
        assert_eq!(parsed.proximity, (status == 0).then_some(42));
        assert_eq!(parsed.uninterpreted_data, None);
    }
    for status in [0, 1, 255] {
        let Event::CurrentProximity(parsed) =
            parse_report(&response(0x4a, status, &[42, 91])).unwrap()
        else {
            panic!("wrong event")
        };
        assert_eq!(parsed.status, status);
        assert_eq!(parsed.proximity, None);
        assert_eq!(parsed.uninterpreted_data, (status == 0).then_some([42, 91]));
    }
    for data in [&[][..], &[1, 2, 3][..]] {
        assert!(matches!(
            parse_report(&response(0x4a, 0, data)),
            Err(ParseError::WrongProtocolLength { expected: 6, .. })
        ));
    }
}

#[test]
fn response_flag_precedes_type_and_unknown_data_is_discarded() {
    let Event::UnsupportedResponse(parsed) =
        parse_report(&response(0x0b, 0, &[0x80, 1, 2, 3])).unwrap()
    else {
        panic!("response interpreted as status")
    };
    assert_eq!(parsed.command_id, 0x0b);
    let mut raw = [0; 64];
    raw[..4].copy_from_slice(&[0, 1, 0xf1, 4]);
    checksum(&mut raw);
    assert!(matches!(
        parse_report(&raw),
        Ok(Event::UnsupportedReport {
            report_type: 0xf1,
            ..
        })
    ));
    raw[1] |= 0x10;
    checksum(&mut raw);
    assert_eq!(
        parse_report(&raw),
        Err(ParseError::ResponseTooShort { actual: 4 })
    );
}

#[test]
fn arbitrary_inputs_never_panic() {
    let mut seed = 0x9060_u32;
    for case in 0..10_000 {
        let mut raw = [0; 64];
        for byte in &mut raw {
            seed = seed.wrapping_mul(1664525).wrapping_add(1013904223);
            *byte = (seed >> 24) as u8;
        }
        if case % 2 == 0 {
            raw[1] = (raw[1] & 0xf0) | 1;
            raw[3] = 4 + raw[3] % 60;
            checksum(&mut raw);
        }
        let _ = parse_report(&raw);
        let _ = parse_imu_report(&raw);
        let _ = parse_status_report(&raw);
    }
}

#[test]
fn sums_wrap_at_eight_bits() {
    assert_eq!(sum8(&[]), 0);
    assert_eq!(sum8(&[0xff, 0x02]), 1);
    assert_eq!(sum8(&[0xaa, 1, 0x8c, 5, 0]), 0x3c);
}

#[test]
fn type_is_checked_before_length() {
    let raw = status(0);
    assert_eq!(require_layout(&raw, 0x0b, 9), Ok(()));
    assert_eq!(
        require_layout(&raw, 0x0a, 44),
        Err(ParseError::WrongReportType {
            expected: 0x0a,
            actual: 0x0b
        })
    );
    assert_eq!(
        require_layout(&raw, 0x0b, 44),
        Err(ParseError::WrongProtocolLength {
            expected: 44,
            actual: 9
        })
    );
}

#[test]
fn length_is_checked_before_version_and_version_before_checksum() {
    let mut raw = status(0);
    raw[9] ^= 0xff;
    raw[1] = 2;
    raw[3] = 64;
    assert_eq!(
        parse_report(&raw),
        Err(ParseError::InvalidProtocolLength { actual: 64 })
    );
    raw[3] = 9;
    assert_eq!(
        parse_report(&raw),
        Err(ParseError::UnsupportedVersion { version: 2 })
    );
    raw[1] = 1;
    assert!(matches!(
        parse_report(&raw),
        Err(ParseError::ChecksumMismatch { .. })
    ));
}

#[test]
fn checksum_mismatch_tells_both_values() {
    let mut raw = imu();
    raw[44] = 0x85;
    assert_eq!(
        parse_report(&raw),
        Err(ParseError::ChecksumMismatch {
            expected: 0x86,
            actual: 0x85
        })
    );
}

#[test]
fn any_single_corruption_is_detected() {
    for index in 0..45 {
        if index == 3 {
            continue;
        }
        for bit in 0..8 {
            let mut raw = imu();
            raw[index] ^= 1 << bit;
            assert!(parse_imu_report(&raw).is_err());
        }
    }
}

#[test]
fn acceptable_magnitudes_end_at_one_thousand_million() {
    for value in [0.0_f32, -0.0, 1e9, -1e9, f32::MIN_POSITIVE, 1e-45, 999_999_936.0] {
        assert!(Binary32 { bits: value.to_bits() }.is_acceptable());
    }
    for value in [
        1_000_000_064.0_f32,
        -1_000_000_064.0,
        f32::MAX,
        f32::MIN,
        f32::INFINITY,
        f32::NEG_INFINITY,
        f32::NAN,
    ] {
        assert!(!Binary32 { bits: value.to_bits() }.is_acceptable());
    }
    assert_eq!(1e9_f32.to_bits(), 0x4e6e_6b28);
    assert!(!Binary32 { bits: 0x4e6e_6b29 }.is_acceptable());
    assert!(!Binary32 { bits: 0xffff_ffff }.is_acceptable());
}

#[test]
fn samples_compare_as_numbers() {
    let with = |value: f32| {
        let mut raw = imu();
        raw[24..28].copy_from_slice(&value.to_le_bytes());
        checksum(&mut raw);
        parse_report(&raw).unwrap()
    };
    assert_eq!(with(0.0), with(-0.0));
    assert_ne!(with(1.0), with(-1.0));
    assert_ne!(with(0.0), with(f32::from_bits(1)));
    let values = [0.0_f32, -0.0, 1.0, -1.0, f32::INFINITY, f32::NEG_INFINITY, f32::NAN, -f32::NAN];
    for a in values {
        for b in values {
            let patterns = (Binary32 { bits: a.to_bits() }, Binary32 { bits: b.to_bits() });
            assert_eq!(patterns.0 == patterns.1, a == b);
        }
    }
}

#[test]
fn first_invalid_value_is_reported() {
    let mut raw = imu();
    raw[8..12].copy_from_slice(&f32::NAN.to_le_bytes());
    raw[16..20].copy_from_slice(&f32::NAN.to_le_bytes());
    checksum(&mut raw);
    assert_eq!(
        parse_report(&raw),
        Err(ParseError::InvalidFloat {
            channel: ImuChannel::Acceleration,
            axis: 1
        })
    );
}

#[test]
fn unselected_bytes_and_unknown_payloads_are_discarded() {
    let mut a = status(0x08);
    let mut b = status(0x08);
    a[5] = 77;
    b[6] = 78;
    checksum(&mut a);
    checksum(&mut b);
    assert_eq!(parse_status_report(&a), parse_status_report(&b));

    let mut raw = [0; 64];
    raw[..6].copy_from_slice(&[9, 0x21, 0xf1, 6, 1, 2]);
    checksum(&mut raw);
    let event = parse_report(&raw).unwrap();
    assert_eq!(
        event,
        Event::UnsupportedReport {
            header: ReportHeader {
                header0: 9,
                flags: 0x20,
                version: 1
            },
            report_type: 0xf1,
            protocol_length: 6
        }
    );
    raw[4] = 200;
    checksum(&mut raw);
    assert_eq!(parse_report(&raw), Ok(event));
}

#[test]
fn failed_query_and_its_errors_hold_no_data() {
    assert_eq!(
        parse_report(&response(0x4a, 3, &[42])),
        parse_report(&response(0x4a, 3, &[43]))
    );
    assert_eq!(
        parse_report(&response(0x4a, 0, &[1, 2, 3])),
        Err(ParseError::WrongProtocolLength {
            expected: 6,
            actual: 8
        })
    );
}

#[test]
fn decoders_of_one_kind_do_not_look_at_the_response_flag() {
    let mut raw = status(1);
    raw[1] = 0x11;
    checksum(&mut raw);
    assert_eq!(parse_status_report(&raw).unwrap().proximity, Some(1));
    assert!(matches!(
        parse_report(&raw),
        Ok(Event::UnsupportedResponse(_))
    ));
}
