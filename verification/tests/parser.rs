//! Tests of the presence-sensor frame parser.
use bestelampe::presence::{
    Frame, HumanPresence, Motion, ParseError, Presence, Proximity, brightness_target_for_motion,
    mr_parser, parse_human_presence_report, parse_proximity_information,
};

#[test]
fn test_mr_parser() {
    println!(
        "Proximity: {:x?}",
        parse_proximity_information(&[0x0b, 0x00, 0x01, 0x02]).unwrap()
    );
    println!(
        "Human presence report: {:x?}",
        parse_human_presence_report(&[0x80, 0x0b, 0x00, 0x01, 0x02]).unwrap()
    );
    println!(
        "Full frame: {:x?}",
        mr_parser(&[0x53, 0x59, 0x80, 0x03, 0x00, 0x01, 0x06, 0x36, 0x54, 0x43]).unwrap()
    );
}

#[test]
fn proximity_record_values() {
    assert_eq!(
        parse_proximity_information(&[0x0b, 0x00, 0x01, 0x00]),
        Ok((4, HumanPresence::ProximityReport(Proximity::NoneDetected)))
    );
    assert_eq!(
        parse_proximity_information(&[0x0b, 0x00, 0x01, 0x01]),
        Ok((4, HumanPresence::ProximityReport(Proximity::Approaching)))
    );
    assert_eq!(
        parse_proximity_information(&[0x0b, 0x00, 0x01, 0x02]),
        Ok((4, HumanPresence::ProximityReport(Proximity::MovingAway)))
    );
    // An unknown proximity reading fails the record.
    assert_eq!(parse_proximity_information(&[0x0b, 0x00, 0x01, 0x03]), Err(ParseError));
    // A record whose data is longer than one byte keeps only the reading.
    assert_eq!(
        parse_proximity_information(&[0x0b, 0x00, 0x03, 0x01, 0xaa, 0xbb]),
        Ok((6, HumanPresence::ProximityReport(Proximity::Approaching)))
    );
}

#[test]
fn record_framing_errors() {
    // Wrong tag.
    assert!(parse_proximity_information(&[0x0c, 0x00, 0x01, 0x02]).is_err());
    // Empty data (a length of zero leaves no reading).
    assert!(parse_proximity_information(&[0x0b, 0x00, 0x00]).is_err());
    // Length promises more data than there is.
    assert!(parse_proximity_information(&[0x0b, 0x00, 0x02, 0x01]).is_err());
    // Too short for tag and length.
    assert!(parse_proximity_information(&[0x0b, 0x00]).is_err());
    assert!(parse_proximity_information(&[]).is_err());
}

#[test]
fn report_picks_the_matching_record_kind() {
    assert_eq!(
        parse_human_presence_report(&[0x80, 0x01, 0x00, 0x01, 0x01]),
        Ok((5, Frame::HumanPresenceReport(HumanPresence::PresenceInformation(Presence::Occupied))))
    );
    assert_eq!(
        parse_human_presence_report(&[0x80, 0x02, 0x00, 0x01, 0x02]),
        Ok((5, Frame::HumanPresenceReport(HumanPresence::MotionInformation(Motion::Active))))
    );
    assert_eq!(
        parse_human_presence_report(&[0x80, 0x03, 0x00, 0x01, 0x2a]),
        Ok((5, Frame::HumanPresenceReport(HumanPresence::BodyMovementParameter(0x2a))))
    );
    assert_eq!(
        parse_human_presence_report(&[0x80, 0x0b, 0x00, 0x01, 0x02]),
        Ok((5, Frame::HumanPresenceReport(HumanPresence::ProximityReport(Proximity::MovingAway))))
    );
    // Not a report at all.
    assert!(parse_human_presence_report(&[0x81, 0x0b, 0x00, 0x01, 0x02]).is_err());
    // An unknown record tag fails the report.
    assert!(parse_human_presence_report(&[0x80, 0x04, 0x00, 0x01, 0x00]).is_err());
}

#[test]
fn whole_frames() {
    let frame = [0x53, 0x59, 0x80, 0x03, 0x00, 0x01, 0x06, 0x36, 0x54, 0x43];
    assert_eq!(
        mr_parser(&frame),
        Ok((10, Frame::HumanPresenceReport(HumanPresence::BodyMovementParameter(6))))
    );
    // Trailing bytes stay unconsumed.
    let mut longer = frame.to_vec();
    longer.push(0x00);
    longer.push(0x53);
    assert_eq!(
        mr_parser(&longer),
        Ok((10, Frame::HumanPresenceReport(HumanPresence::BodyMovementParameter(6))))
    );
    // The checksum byte itself is not validated.
    let mut other_checksum = frame;
    other_checksum[7] = 0xff;
    assert!(mr_parser(&other_checksum).is_ok());
    // A motion frame parses to the motion reading.
    let motion = [0x53, 0x59, 0x80, 0x02, 0x00, 0x01, 0x01, 0x00, 0x54, 0x43];
    assert_eq!(
        mr_parser(&motion),
        Ok((10, Frame::HumanPresenceReport(HumanPresence::MotionInformation(Motion::Motionless))))
    );
}

#[test]
fn frame_framing_errors() {
    // Wrong header.
    assert!(mr_parser(&[0x54, 0x59, 0x80, 0x03, 0x00, 0x01, 0x06, 0x36, 0x54, 0x43]).is_err());
    // Missing trailer.
    assert!(mr_parser(&[0x53, 0x59, 0x80, 0x03, 0x00, 0x01, 0x06, 0x36]).is_err());
    // Wrong trailer.
    assert!(mr_parser(&[0x53, 0x59, 0x80, 0x03, 0x00, 0x01, 0x06, 0x36, 0x54, 0x44]).is_err());
    // Empty and tiny inputs.
    assert!(mr_parser(&[]).is_err());
    assert!(mr_parser(&[0x53]).is_err());
    assert!(mr_parser(&[0x53, 0x59]).is_err());
}

#[test]
fn motion_readings_map_to_brightness_targets() {
    assert_eq!(brightness_target_for_motion(&Motion::NoneDetected), 200_000);
    assert_eq!(brightness_target_for_motion(&Motion::Motionless), 800_000);
    assert_eq!(brightness_target_for_motion(&Motion::Active), 2_000_000);
}
