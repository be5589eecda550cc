//! Frame parser for the serial presence-sensor protocol.
//!
//! A frame starts with the bytes `0x53 0x59`, carries a human-presence
//! report (`0x80`) whose body is one tagged, length-prefixed record, and
//! ends with a checksum byte (not validated) and the trailer `0x54 0x43`.
//! Each record holds a big-endian 16-bit length followed by that many data
//! bytes, of which the first carries the reading; the record kinds are
//! tried in a fixed order, and an unknown tag or reading fails the frame.
use vstd::prelude::*;

verus! {

/// The bytes do not hold a valid frame at the expected position.
#[derive(Clone, Copy, Debug, PartialEq, Eq, Structural)]
pub struct ParseError;

/// Whether someone is moving toward or away from the sensor.
#[derive(Clone, Copy, Debug, PartialEq, Eq, Structural)]
pub enum Proximity {
    NoneDetected,
    Approaching,
    MovingAway,
}

/// Whether the room is occupied.
#[derive(Clone, Copy, Debug, PartialEq, Eq, Structural)]
pub enum Presence {
    Unoccupied,
    Occupied,
}

/// The kind of motion observed.
#[derive(Clone, Copy, Debug, PartialEq, Eq, Structural)]
pub enum Motion {
    NoneDetected,
    Motionless,
    Active,
}

/// One human-presence reading.
#[derive(Clone, Copy, Debug, PartialEq, Eq, Structural)]
pub enum HumanPresence {
    PresenceInformation(Presence),
    MotionInformation(Motion),
    BodyMovementParameter(u8),
    ProximityReport(Proximity),
}

/// One frame of the sensor protocol. Only human-presence reports are
/// understood; the other frame kinds the sensor can send are not parsed.
#[derive(Clone, Copy, Debug, PartialEq, Eq, Structural)]
pub enum Frame {
    Heartbeat,
    ProductInformation,
    UartUpgrade,
    OperationStatus,
    HumanPresenceReport(HumanPresence),
}

/// The big-endian 16-bit value at position `i`.
pub open spec fn be_u16_at(s: Seq<u8>, i: int) -> int {
    s[i] * 256 + s[i + 1]
}

/// A tagged, length-prefixed record at position `i`: the tag byte, a
/// big-endian 16-bit length of at least one, and that many data bytes.
/// Yields the position after the record and its first data byte.
pub open spec fn record_at(s: Seq<u8>, i: int, tag: u8) -> Option<(int, u8)> {
    if i + 3 <= s.len() && s[i] == tag && 1 <= be_u16_at(s, i + 1) && i + 3 + be_u16_at(s, i + 1)
        <= s.len() {
        Some((i + 3 + be_u16_at(s, i + 1), s[i + 3]))
    } else {
        None
    }
}

/// A proximity record (tag `0x0b`) at position `i`.
pub open spec fn proximity_at(s: Seq<u8>, i: int) -> Option<(int, HumanPresence)> {
    match record_at(s, i, 0x0b) {
        Some(r) => if r.1 == 0 {
            Some((r.0, HumanPresence::ProximityReport(Proximity::NoneDetected)))
        } else if r.1 == 1 {
            Some((r.0, HumanPresence::ProximityReport(Proximity::Approaching)))
        } else if r.1 == 2 {
            Some((r.0, HumanPresence::ProximityReport(Proximity::MovingAway)))
        } else {
            None
        },
        None => None,
    }
}

/// A presence record (tag `0x01`) at position `i`.
pub open spec fn presence_at(s: Seq<u8>, i: int) -> Option<(int, HumanPresence)> {
    match record_at(s, i, 0x01) {
        Some(r) => if r.1 == 0 {
            Some((r.0, HumanPresence::PresenceInformation(Presence::Unoccupied)))
        } else if r.1 == 1 {
            Some((r.0, HumanPresence::PresenceInformation(Presence::Occupied)))
        } else {
            None
        },
        None => None,
    }
}

/// A motion record (tag `0x02`) at position `i`.
pub open spec fn motion_at(s: Seq<u8>, i: int) -> Option<(int, HumanPresence)> {
    match record_at(s, i, 0x02) {
        Some(r) => if r.1 == 0 {
            Some((r.0, HumanPresence::MotionInformation(Motion::NoneDetected)))
        } else if r.1 == 1 {
            Some((r.0, HumanPresence::MotionInformation(Motion::Motionless)))
        } else if r.1 == 2 {
            Some((r.0, HumanPresence::MotionInformation(Motion::Active)))
        } else {
            None
        },
        None => None,
    }
}

/// A body-movement record (tag `0x03`) at position `i`; any reading is
/// valid.
pub open spec fn body_movement_at(s: Seq<u8>, i: int) -> Option<(int, HumanPresence)> {
    match record_at(s, i, 0x03) {
        Some(r) => Some((r.0, HumanPresence::BodyMovementParameter(r.1))),
        None => None,
    }
}

/// The first human-presence record kind that parses at position `i`, in
/// the fixed order proximity, presence, motion, body movement.
pub open spec fn human_presence_at(s: Seq<u8>, i: int) -> Option<(int, HumanPresence)> {
    if proximity_at(s, i) is Some {
        proximity_at(s, i)
    } else if presence_at(s, i) is Some {
        presence_at(s, i)
    } else if motion_at(s, i) is Some {
        motion_at(s, i)
    } else {
        body_movement_at(s, i)
    }
}

/// A human-presence report at position `i`: the report tag `0x80`
/// followed by one human-presence record.
pub open spec fn report_at(s: Seq<u8>, i: int) -> Option<(int, Frame)> {
    if i < s.len() && s[i] == 0x80 {
        match human_presence_at(s, i + 1) {
            Some(r) => Some((r.0, Frame::HumanPresenceReport(r.1))),
            None => None,
        }
    } else {
        None
    }
}

/// A whole frame at the start of `s`: the header `0x53 0x59`, a
/// human-presence report, a checksum byte and the trailer `0x54 0x43`.
/// Yields the number of bytes consumed and the parsed frame.
pub open spec fn frame_spec(s: Seq<u8>) -> Option<(int, Frame)> {
    if 2 <= s.len() && s[0] == 0x53 && s[1] == 0x59 {
        match report_at(s, 2) {
            Some(r) => if r.0 + 3 <= s.len() && s[r.0 + 1] == 0x54 && s[r.0 + 2] == 0x43 {
                Some((r.0 + 3, r.1))
            } else {
                None
            },
            None => None,
        }
    } else {
        None
    }
}

/// Read a tagged, length-prefixed record at position `i`.
fn read_record(input: &[u8], i: usize, tag: u8) -> (r: Result<(usize, u8), ParseError>)
    requires
        i <= input@.len(),
    ensures
        match r {
            Ok(p) => record_at(input@, i as int, tag) == Some((p.0 as int, p.1)) && i < p.0
                <= input@.len(),
            Err(_) => record_at(input@, i as int, tag) is None,
        },
{
    let n: usize = input.len();
    if n - i < 3 {
        return Err(ParseError);
    }
    if input[i] != tag {
        return Err(ParseError);
    }
    let len: usize = (input[i + 1] as usize) * 256 + (input[i + 2] as usize);
    if len < 1 {
        return Err(ParseError);
    }
    if n - (i + 3) < len {
        return Err(ParseError);
    }
    Ok((i + 3 + len, input[i + 3]))
}

/// Parse a proximity record, as `proximity_at` describes.
pub fn parse_proximity_information(input: &[u8]) -> (r: Result<(usize, HumanPresence), ParseError>)
    ensures
        match r {
            Ok(p) => proximity_at(input@, 0) == Some((p.0 as int, p.1)) && p.0 <= input@.len(),
            Err(_) => proximity_at(input@, 0) is None,
        },
{
    parse_proximity_at(input, 0)
}

/// Parse a proximity record at position `i`.
fn parse_proximity_at(input: &[u8], i: usize) -> (r: Result<(usize, HumanPresence), ParseError>)
    requires
        i <= input@.len(),
    ensures
        match r {
            Ok(p) => proximity_at(input@, i as int) == Some((p.0 as int, p.1)) && i < p.0
                <= input@.len(),
            Err(_) => proximity_at(input@, i as int) is None,
        },
{
    let (end, data): (usize, u8) = match read_record(input, i, 0x0b) {
        Ok(p) => p,
        Err(e) => {
            return Err(e);
        },
    };
    match data {
        0x00 => Ok((end, HumanPresence::ProximityReport(Proximity::NoneDetected))),
        0x01 => Ok((end, HumanPresence::ProximityReport(Proximity::Approaching))),
        0x02 => Ok((end, HumanPresence::ProximityReport(Proximity::MovingAway))),
        _ => Err(ParseError),
    }
}

/// Parse a presence record at position `i`.
fn parse_presence_at(input: &[u8], i: usize) -> (r: Result<(usize, HumanPresence), ParseError>)
    requires
        i <= input@.len(),
    ensures
        match r {
            Ok(p) => presence_at(input@, i as int) == Some((p.0 as int, p.1)) && i < p.0
                <= input@.len(),
            Err(_) => presence_at(input@, i as int) is None,
        },
{
    let (end, data): (usize, u8) = match read_record(input, i, 0x01) {
        Ok(p) => p,
        Err(e) => {
            return Err(e);
        },
    };
    match data {
        0x00 => Ok((end, HumanPresence::PresenceInformation(Presence::Unoccupied))),
        0x01 => Ok((end, HumanPresence::PresenceInformation(Presence::Occupied))),
        _ => Err(ParseError),
    }
}

/// Parse a motion record at position `i`.
fn parse_motion_at(input: &[u8], i: usize) -> (r: Result<(usize, HumanPresence), ParseError>)
    requires
        i <= input@.len(),
    ensures
        match r {
            Ok(p) => motion_at(input@, i as int) == Some((p.0 as int, p.1)) && i < p.0
                <= input@.len(),
            Err(_) => motion_at(input@, i as int) is None,
        },
{
    let (end, data): (usize, u8) = match read_record(input, i, 0x02) {
        Ok(p) => p,
        Err(e) => {
            return Err(e);
        },
    };
    match data {
        0x00 => Ok((end, HumanPresence::MotionInformation(Motion::NoneDetected))),
        0x01 => Ok((end, HumanPresence::MotionInformation(Motion::Motionless))),
        0x02 => Ok((end, HumanPresence::MotionInformation(Motion::Active))),
        _ => Err(ParseError),
    }
}

/// Parse a body-movement record at position `i`.
fn parse_body_movement_at(input: &[u8], i: usize) -> (r: Result<
    (usize, HumanPresence),
    ParseError,
>)
    requires
        i <= input@.len(),
    ensures
        match r {
            Ok(p) => body_movement_at(input@, i as int) == Some((p.0 as int, p.1)) && i < p.0
                <= input@.len(),
            Err(_) => body_movement_at(input@, i as int) is None,
        },
{
    let (end, data): (usize, u8) = match read_record(input, i, 0x03) {
        Ok(p) => p,
        Err(e) => {
            return Err(e);
        },
    };
    Ok((end, HumanPresence::BodyMovementParameter(data)))
}

/// Parse a human-presence report, as `report_at` describes: the report
/// tag followed by the first record kind that parses.
pub fn parse_human_presence_report(input: &[u8]) -> (r: Result<(usize, Frame), ParseError>)
    ensures
        match r {
            Ok(p) => report_at(input@, 0) == Some((p.0 as int, p.1)) && p.0 <= input@.len(),
            Err(_) => report_at(input@, 0) is None,
        },
{
    parse_report_at(input, 0)
}

/// Parse a human-presence report at position `i`.
fn parse_report_at(input: &[u8], i: usize) -> (r: Result<(usize, Frame), ParseError>)
    requires
        i <= input@.len(),
    ensures
        match r {
            Ok(p) => report_at(input@, i as int) == Some((p.0 as int, p.1)) && i < p.0
                <= input@.len(),
            Err(_) => report_at(input@, i as int) is None,
        },
{
    if input.len() - i < 1 {
        return Err(ParseError);
    }
    if input[i] != 0x80 {
        return Err(ParseError);
    }
    let inner: Result<(usize, HumanPresence), ParseError> = match parse_proximity_at(
        input,
        i + 1,
    ) {
        Ok(p) => Ok(p),
        Err(_) => match parse_presence_at(input, i + 1) {
            Ok(p) => Ok(p),
            Err(_) => match parse_motion_at(input, i + 1) {
                Ok(p) => Ok(p),
                Err(_) => parse_body_movement_at(input, i + 1),
            },
        },
    };
    match inner {
        Ok(p) => Ok((p.0, Frame::HumanPresenceReport(p.1))),
        Err(e) => Err(e),
    }
}

/// Parse one whole frame from the start of `input`, as `frame_spec`
/// describes: on success, the number of bytes consumed (the remainder of
/// the input is untouched) and the parsed frame.
pub fn mr_parser(input: &[u8]) -> (r: Result<(usize, Frame), ParseError>)
    ensures
        match r {
            Ok(p) => frame_spec(input@) == Some((p.0 as int, p.1)) && p.0 <= input@.len(),
            Err(_) => frame_spec(input@) is None,
        },
{
    let n: usize = input.len();
    if n < 2 {
        return Err(ParseError);
    }
    if input[0] != 0x53 || input[1] != 0x59 {
        return Err(ParseError);
    }
    let (end, frame): (usize, Frame) = match parse_report_at(input, 2) {
        Ok(p) => p,
        Err(e) => {
            return Err(e);
        },
    };
    if n - end < 3 {
        return Err(ParseError);
    }
    if input[end + 1] != 0x54 || input[end + 2] != 0x43 {
        return Err(ParseError);
    }
    Ok((end + 3, frame))
}

/// The brightness target (micro-units of one, possibly above one whole
/// unit) that the lamp aims for after a motion reading.
pub fn brightness_target_for_motion(motion: &Motion) -> (r: i64)
    ensures
        r == match *motion {
            Motion::NoneDetected => 200_000int,
            Motion::Motionless => 800_000int,
            Motion::Active => 2_000_000int,
        },
{
    match *motion {
        Motion::NoneDetected => 200_000,
        Motion::Motionless => 800_000,
        Motion::Active => 2_000_000,
    }
}

} // verus!
