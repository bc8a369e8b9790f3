//! How records are written to bytes and read back.
//!
//! A record is flattened into nested tuples of plain values, enums as their
//! numbers, and the tuples are encoded by bincode.

use crate::data::{
    Auto, AutoChargeStation, BumperType, Capabilities, ChargeBattery, clone_texts, ConfidenceLevel,
    HumanPickupRange, MatchInfo, MatchInfoView, MatchType, Pit, PitView, PreferredPlay,
    PreferredStack, Robot, RobotInfo, RobotInfoView, RobotView, StackType, Teleop,
    TeleopChargeStation, texts, VisionType,
};
use vstd::prelude::*;

verus! {

/// `bincode::ErrorKind`: why an encoding or a decoding failed.
#[verifier::external_type_specification]
#[verifier::external_body]
pub struct ExBincodeErrorKind(bincode::ErrorKind);

/// The autonomous period of a match record flattened for encoding.
pub type AutoFields = (bool, u32, u32, u32, u32, u32, u32, u32);

/// The driver-controlled period of a match record flattened for encoding.
pub type TeleopFields = (u32, u32, u32, u32, u32, u32, bool, u32);

/// A match record flattened for encoding.
pub type MatchFields = (
    u32,
    u32,
    u32,
    AutoFields,
    TeleopFields,
    u32,
    u32,
    Option<u32>,
    bool,
    bool,
    bool,
    String,
    u64,
);

/// A flattened match record as a mathematical value.
pub type MatchFieldsView = (
    u32,
    u32,
    u32,
    AutoFields,
    TeleopFields,
    u32,
    u32,
    Option<u32>,
    bool,
    bool,
    bool,
    Seq<char>,
    u64,
);

/// A pit note flattened for encoding.
pub type PitFields = (Option<u32>, Option<u32>, Option<u32>, String);

/// A flattened pit note as a mathematical value.
pub type PitFieldsView = (Option<u32>, Option<u32>, Option<u32>, Seq<char>);

/// A robot note flattened for encoding.
pub type RobotFields = (
    Option<u32>,
    Option<u32>,
    Option<u32>,
    Option<u32>,
    Option<u32>,
    Option<u32>,
    Option<u32>,
    Option<u32>,
    Option<u32>,
    Option<u32>,
    Option<u32>,
    String,
    String,
    String,
);

/// A flattened robot note as a mathematical value.
pub type RobotFieldsView = (
    Option<u32>,
    Option<u32>,
    Option<u32>,
    Option<u32>,
    Option<u32>,
    Option<u32>,
    Option<u32>,
    Option<u32>,
    Option<u32>,
    Option<u32>,
    Option<u32>,
    Seq<char>,
    Seq<char>,
    Seq<char>,
);

/// A pit visit flattened for encoding.
pub type VisitFields = (u32, u32, PitFields, RobotFields, Vec<String>, u64);

/// A flattened pit visit as a mathematical value.
pub type VisitFieldsView = (u32, u32, PitFieldsView, RobotFieldsView, Seq<Seq<char>>, u64);

/// Flattened fields as a mathematical value.
pub open spec fn match_fields_view(f: MatchFields) -> MatchFieldsView {
    (f.0, f.1, f.2, f.3, f.4, f.5, f.6, f.7, f.8, f.9, f.10, f.11@, f.12)
}

/// Flattened fields as a mathematical value.
pub open spec fn visit_fields_view(f: VisitFields) -> VisitFieldsView {
    (
        f.0,
        f.1,
        (f.2.0, f.2.1, f.2.2, f.2.3@),
        (
            f.3.0,
            f.3.1,
            f.3.2,
            f.3.3,
            f.3.4,
            f.3.5,
            f.3.6,
            f.3.7,
            f.3.8,
            f.3.9,
            f.3.10,
            f.3.11@,
            f.3.12@,
            f.3.13@,
        ),
        texts(f.4@),
        f.5,
    )
}

/// The match record that a list of bytes decodes to as flattened fields, if
/// it decodes.
pub uninterp spec fn decoded_match_fields(bytes: Seq<u8>) -> Option<MatchFieldsView>;

/// The pit visit that a list of bytes decodes to as flattened fields, if it
/// decodes.
pub uninterp spec fn decoded_visit_fields(bytes: Seq<u8>) -> Option<VisitFieldsView>;

/// `bincode::serialize` on a flattened match record. What it returns decodes
/// back to the same fields.
#[verifier::external_body]
pub(crate) fn encode_match_fields(fields: &MatchFields) -> (res: Result<Vec<u8>, bincode::Error>)
    ensures
        res matches Ok(bytes) ==> decoded_match_fields(bytes@) == Some(match_fields_view(*fields)),
{
    bincode::serialize(fields)
}

/// `bincode::deserialize` to a flattened match record. Whether it succeeds,
/// and with what, depends on the bytes alone.
#[verifier::external_body]
pub(crate) fn decode_match_fields(bytes: &Vec<u8>) -> (res: Result<MatchFields, bincode::Error>)
    ensures
        res is Ok <==> decoded_match_fields(bytes@) is Some,
        res matches Ok(fields) ==> decoded_match_fields(bytes@) == Some(match_fields_view(fields)),
{
    bincode::deserialize(bytes)
}

/// `bincode::serialize` on a flattened pit visit. What it returns decodes
/// back to the same fields.
#[verifier::external_body]
pub(crate) fn encode_visit_fields(fields: &VisitFields) -> (res: Result<Vec<u8>, bincode::Error>)
    ensures
        res matches Ok(bytes) ==> decoded_visit_fields(bytes@) == Some(visit_fields_view(*fields)),
{
    bincode::serialize(fields)
}

/// `bincode::deserialize` to a flattened pit visit. Whether it succeeds, and
/// with what, depends on the bytes alone.
#[verifier::external_body]
pub(crate) fn decode_visit_fields(bytes: &Vec<u8>) -> (res: Result<VisitFields, bincode::Error>)
    ensures
        res is Ok <==> decoded_visit_fields(bytes@) is Some,
        res matches Ok(fields) ==> decoded_visit_fields(bytes@) == Some(visit_fields_view(fields)),
{
    bincode::deserialize(bytes)
}

/// The fields of a match record.
pub open spec fn match_fields(r: MatchInfoView) -> MatchFieldsView {
    (
        r.match_number,
        r.match_category.spec_to_u32(),
        r.team_number,
        (
            r.auto.exited_tarmac,
            r.auto.auto_charge_station.spec_to_u32(),
            r.auto.hybrid_cube_scored,
            r.auto.hybrid_cone_scored,
            r.auto.middle_cube_scored,
            r.auto.middle_cone_scored,
            r.auto.high_cube_scored,
            r.auto.high_cone_scored,
        ),
        (
            r.teleop.hybrid_cube_scored,
            r.teleop.hybrid_cone_scored,
            r.teleop.middle_cube_scored,
            r.teleop.middle_cone_scored,
            r.teleop.high_cube_scored,
            r.teleop.high_cone_scored,
            r.teleop.parked,
            r.teleop.teleop_charge_station.spec_to_u32(),
        ),
        r.speed,
        r.stability,
        r.defence,
        r.is_primary_defence,
        r.was_broken,
        r.was_disabled,
        r.notes,
        r.last_modified_time,
    )
}

/// The match record that the fields make up, if each number that stands for
/// a choice stands for one.
pub open spec fn match_from_fields(f: MatchFieldsView) -> Option<MatchInfoView> {
    match (
        MatchType::spec_from_u32(f.1),
        AutoChargeStation::spec_from_u32(f.3.1),
        TeleopChargeStation::spec_from_u32(f.4.7),
    ) {
        (Some(category), Some(auto_station), Some(teleop_station)) => Some(
            MatchInfoView {
                match_number: f.0,
                match_category: category,
                team_number: f.2,
                auto: Auto {
                    exited_tarmac: f.3.0,
                    auto_charge_station: auto_station,
                    hybrid_cube_scored: f.3.2,
                    hybrid_cone_scored: f.3.3,
                    middle_cube_scored: f.3.4,
                    middle_cone_scored: f.3.5,
                    high_cube_scored: f.3.6,
                    high_cone_scored: f.3.7,
                },
                teleop: Teleop {
                    hybrid_cube_scored: f.4.0,
                    hybrid_cone_scored: f.4.1,
                    middle_cube_scored: f.4.2,
                    middle_cone_scored: f.4.3,
                    high_cube_scored: f.4.4,
                    high_cone_scored: f.4.5,
                    parked: f.4.6,
                    teleop_charge_station: teleop_station,
                },
                speed: f.5,
                stability: f.6,
                defence: f.7,
                is_primary_defence: f.8,
                was_broken: f.9,
                was_disabled: f.10,
                notes: f.11,
                last_modified_time: f.12,
            },
        ),
        _ => None,
    }
}

/// Fields made from a match record make up that record again.
pub proof fn lemma_match_fields_round_trip(r: MatchInfoView)
    ensures
        match_from_fields(match_fields(r)) == Some(r),
{
}

/// The match record that a list of bytes holds, if it holds one.
pub open spec fn stored_match(bytes: Seq<u8>) -> Option<MatchInfoView> {
    match decoded_match_fields(bytes) {
        Some(f) => match_from_fields(f),
        None => None,
    }
}

/// The fields of a match record.
pub fn match_to_fields(r: &MatchInfo) -> (f: MatchFields)
    ensures
        match_fields_view(f) == match_fields(r@),
{
    (
        r.match_number,
        r.match_category.to_u32(),
        r.team_number,
        (
            r.auto.exited_tarmac,
            r.auto.auto_charge_station.to_u32(),
            r.auto.hybrid_cube_scored,
            r.auto.hybrid_cone_scored,
            r.auto.middle_cube_scored,
            r.auto.middle_cone_scored,
            r.auto.high_cube_scored,
            r.auto.high_cone_scored,
        ),
        (
            r.teleop.hybrid_cube_scored,
            r.teleop.hybrid_cone_scored,
            r.teleop.middle_cube_scored,
            r.teleop.middle_cone_scored,
            r.teleop.high_cube_scored,
            r.teleop.high_cone_scored,
            r.teleop.parked,
            r.teleop.teleop_charge_station.to_u32(),
        ),
        r.speed,
        r.stability,
        r.defence,
        r.is_primary_defence,
        r.was_broken,
        r.was_disabled,
        r.notes.clone(),
        r.last_modified_time,
    )
}

/// The match record that the fields make up, if they make one up.
pub fn match_of_fields(f: MatchFields) -> (r: Option<MatchInfo>)
    ensures
        r is Some <==> match_from_fields(match_fields_view(f)) is Some,
        r matches Some(record) ==> match_from_fields(match_fields_view(f)) == Some(record@),
{
    let category = match MatchType::from_u32(f.1) {
        Some(c) => c,
        None => {
            return None;
        },
    };
    let auto_station = match AutoChargeStation::from_u32(f.3.1) {
        Some(c) => c,
        None => {
            return None;
        },
    };
    let teleop_station = match TeleopChargeStation::from_u32(f.4.7) {
        Some(c) => c,
        None => {
            return None;
        },
    };
    Some(
        MatchInfo {
            match_number: f.0,
            match_category: category,
            team_number: f.2,
            auto: Auto {
                exited_tarmac: f.3.0,
                auto_charge_station: auto_station,
                hybrid_cube_scored: f.3.2,
                hybrid_cone_scored: f.3.3,
                middle_cube_scored: f.3.4,
                middle_cone_scored: f.3.5,
                high_cube_scored: f.3.6,
                high_cone_scored: f.3.7,
            },
            teleop: Teleop {
                hybrid_cube_scored: f.4.0,
                hybrid_cone_scored: f.4.1,
                middle_cube_scored: f.4.2,
                middle_cone_scored: f.4.3,
                high_cube_scored: f.4.4,
                high_cone_scored: f.4.5,
                parked: f.4.6,
                teleop_charge_station: teleop_station,
            },
            speed: f.5,
            stability: f.6,
            defence: f.7,
            is_primary_defence: f.8,
            was_broken: f.9,
            was_disabled: f.10,
            notes: f.11,
            last_modified_time: f.12,
        },
    )
}

/// The fields of a pit visit.
pub open spec fn visit_fields(r: RobotInfoView) -> VisitFieldsView {
    let c = r.robot.capabilities;
    (
        r.visit_number,
        r.team_number,
        (
            r.pit.pit_people,
            r.pit.chaos,
            match r.pit.confidence_level {
                Some(c) => Some(c.spec_to_u32()),
                None => None,
            },
            r.pit.scouting_method,
        ),
        (
            match c.bumper_type {
                Some(v) => Some(v.spec_to_u32()),
                None => None,
            },
            match c.vision_type {
                Some(v) => Some(v.spec_to_u32()),
                None => None,
            },
            match c.human_pickup_range {
                Some(v) => Some(v.spec_to_u32()),
                None => None,
            },
            match c.stack_type {
                Some(v) => Some(v.spec_to_u32()),
                None => None,
            },
            match c.preferred_play {
                Some(v) => Some(v.spec_to_u32()),
                None => None,
            },
            match c.preferred_stack {
                Some(v) => Some(v.spec_to_u32()),
                None => None,
            },
            match c.charge_battery {
                Some(v) => Some(v.spec_to_u32()),
                None => None,
            },
            c.battery_amount,
            c.drive_motor_amount,
            c.other_motor_amount,
            c.balance_time,
            r.robot.auto_settings,
            r.robot.drive_type,
            r.robot.comments,
        ),
        r.images,
        r.last_modified_time,
    )
}

/// Whether a number that may stand for a choice does not stand for one.
pub open spec fn bad_choice(from: Option<u32>, limit: u32) -> bool {
    from matches Some(v) && v >= limit
}

/// The choice that a number stands for, where there is a number.
pub open spec fn spec_bumper_type(from: Option<u32>) -> Option<BumperType> {
    match from {
        Some(v) => BumperType::spec_from_u32(v),
        None => None,
    }
}

/// The choice that a number stands for; nothing where the number stands for
/// none.
fn read_bumper_type(from: Option<u32>) -> (res: Option<Option<BumperType>>)
    ensures
        res is None <==> bad_choice(from, 3),
        res matches Some(v) ==> v == spec_bumper_type(from),
{
    match from {
        Some(v) => match BumperType::from_u32(v) {
            Some(c) => Some(Some(c)),
            None => None,
        },
        None => Some(None),
    }
}

/// The number that stands for a choice, where one was made.
fn write_bumper_type(from: Option<BumperType>) -> (res: Option<u32>)
    ensures
        res == (match from {
            Some(c) => Some(c.spec_to_u32()),
            None => None,
        }),
{
    match from {
        Some(c) => Some(c.to_u32()),
        None => None,
    }
}

/// The choice that a number stands for, where there is a number.
pub open spec fn spec_vision_type(from: Option<u32>) -> Option<VisionType> {
    match from {
        Some(v) => VisionType::spec_from_u32(v),
        None => None,
    }
}

/// The choice that a number stands for; nothing where the number stands for
/// none.
fn read_vision_type(from: Option<u32>) -> (res: Option<Option<VisionType>>)
    ensures
        res is None <==> bad_choice(from, 4),
        res matches Some(v) ==> v == spec_vision_type(from),
{
    match from {
        Some(v) => match VisionType::from_u32(v) {
            Some(c) => Some(Some(c)),
            None => None,
        },
        None => Some(None),
    }
}

/// The number that stands for a choice, where one was made.
fn write_vision_type(from: Option<VisionType>) -> (res: Option<u32>)
    ensures
        res == (match from {
            Some(c) => Some(c.spec_to_u32()),
            None => None,
        }),
{
    match from {
        Some(c) => Some(c.to_u32()),
        None => None,
    }
}

/// The choice that a number stands for, where there is a number.
pub open spec fn spec_human_pickup_range(from: Option<u32>) -> Option<HumanPickupRange> {
    match from {
        Some(v) => HumanPickupRange::spec_from_u32(v),
        None => None,
    }
}

/// The choice that a number stands for; nothing where the number stands for
/// none.
fn read_human_pickup_range(from: Option<u32>) -> (res: Option<Option<HumanPickupRange>>)
    ensures
        res is None <==> bad_choice(from, 4),
        res matches Some(v) ==> v == spec_human_pickup_range(from),
{
    match from {
        Some(v) => match HumanPickupRange::from_u32(v) {
            Some(c) => Some(Some(c)),
            None => None,
        },
        None => Some(None),
    }
}

/// The number that stands for a choice, where one was made.
fn write_human_pickup_range(from: Option<HumanPickupRange>) -> (res: Option<u32>)
    ensures
        res == (match from {
            Some(c) => Some(c.spec_to_u32()),
            None => None,
        }),
{
    match from {
        Some(c) => Some(c.to_u32()),
        None => None,
    }
}

/// The choice that a number stands for, where there is a number.
pub open spec fn spec_stack_type(from: Option<u32>) -> Option<StackType> {
    match from {
        Some(v) => StackType::spec_from_u32(v),
        None => None,
    }
}

/// The choice that a number stands for; nothing where the number stands for
/// none.
fn read_stack_type(from: Option<u32>) -> (res: Option<Option<StackType>>)
    ensures
        res is None <==> bad_choice(from, 4),
        res matches Some(v) ==> v == spec_stack_type(from),
{
    match from {
        Some(v) => match StackType::from_u32(v) {
            Some(c) => Some(Some(c)),
            None => None,
        },
        None => Some(None),
    }
}

/// The number that stands for a choice, where one was made.
fn write_stack_type(from: Option<StackType>) -> (res: Option<u32>)
    ensures
        res == (match from {
            Some(c) => Some(c.spec_to_u32()),
            None => None,
        }),
{
    match from {
        Some(c) => Some(c.to_u32()),
        None => None,
    }
}

/// The choice that a number stands for, where there is a number.
pub open spec fn spec_preferred_play(from: Option<u32>) -> Option<PreferredPlay> {
    match from {
        Some(v) => PreferredPlay::spec_from_u32(v),
        None => None,
    }
}

/// The choice that a number stands for; nothing where the number stands for
/// none.
fn read_preferred_play(from: Option<u32>) -> (res: Option<Option<PreferredPlay>>)
    ensures
        res is None <==> bad_choice(from, 4),
        res matches Some(v) ==> v == spec_preferred_play(from),
{
    match from {
        Some(v) => match PreferredPlay::from_u32(v) {
            Some(c) => Some(Some(c)),
            None => None,
        },
        None => Some(None),
    }
}

/// The number that stands for a choice, where one was made.
fn write_preferred_play(from: Option<PreferredPlay>) -> (res: Option<u32>)
    ensures
        res == (match from {
            Some(c) => Some(c.spec_to_u32()),
            None => None,
        }),
{
    match from {
        Some(c) => Some(c.to_u32()),
        None => None,
    }
}

/// The choice that a number stands for, where there is a number.
pub open spec fn spec_preferred_stack(from: Option<u32>) -> Option<PreferredStack> {
    match from {
        Some(v) => PreferredStack::spec_from_u32(v),
        None => None,
    }
}

/// The choice that a number stands for; nothing where the number stands for
/// none.
fn read_preferred_stack(from: Option<u32>) -> (res: Option<Option<PreferredStack>>)
    ensures
        res is None <==> bad_choice(from, 4),
        res matches Some(v) ==> v == spec_preferred_stack(from),
{
    match from {
        Some(v) => match PreferredStack::from_u32(v) {
            Some(c) => Some(Some(c)),
            None => None,
        },
        None => Some(None),
    }
}

/// The number that stands for a choice, where one was made.
fn write_preferred_stack(from: Option<PreferredStack>) -> (res: Option<u32>)
    ensures
        res == (match from {
            Some(c) => Some(c.spec_to_u32()),
            None => None,
        }),
{
    match from {
        Some(c) => Some(c.to_u32()),
        None => None,
    }
}

/// The choice that a number stands for, where there is a number.
pub open spec fn spec_charge_battery(from: Option<u32>) -> Option<ChargeBattery> {
    match from {
        Some(v) => ChargeBattery::spec_from_u32(v),
        None => None,
    }
}

/// The choice that a number stands for; nothing where the number stands for
/// none.
fn read_charge_battery(from: Option<u32>) -> (res: Option<Option<ChargeBattery>>)
    ensures
        res is None <==> bad_choice(from, 2),
        res matches Some(v) ==> v == spec_charge_battery(from),
{
    match from {
        Some(v) => match ChargeBattery::from_u32(v) {
            Some(c) => Some(Some(c)),
            None => None,
        },
        None => Some(None),
    }
}

/// The number that stands for a choice, where one was made.
fn write_charge_battery(from: Option<ChargeBattery>) -> (res: Option<u32>)
    ensures
        res == (match from {
            Some(c) => Some(c.spec_to_u32()),
            None => None,
        }),
{
    match from {
        Some(c) => Some(c.to_u32()),
        None => None,
    }
}

/// The choice that a number stands for, where there is a number.
pub open spec fn spec_confidence_level(from: Option<u32>) -> Option<ConfidenceLevel> {
    match from {
        Some(v) => ConfidenceLevel::spec_from_u32(v),
        None => None,
    }
}

/// The choice that a number stands for; nothing where the number stands for
/// none.
fn read_confidence_level(from: Option<u32>) -> (res: Option<Option<ConfidenceLevel>>)
    ensures
        res is None <==> bad_choice(from, 5),
        res matches Some(v) ==> v == spec_confidence_level(from),
{
    match from {
        Some(v) => match ConfidenceLevel::from_u32(v) {
            Some(c) => Some(Some(c)),
            None => None,
        },
        None => Some(None),
    }
}

/// The number that stands for a choice, where one was made.
fn write_confidence_level(from: Option<ConfidenceLevel>) -> (res: Option<u32>)
    ensures
        res == (match from {
            Some(c) => Some(c.spec_to_u32()),
            None => None,
        }),
{
    match from {
        Some(c) => Some(c.to_u32()),
        None => None,
    }
}

/// Whether each number in the fields that stands for a choice stands for one.
pub open spec fn visit_fields_valid(f: VisitFieldsView) -> bool {
    &&& !bad_choice(f.2.2, 5)
    &&& !bad_choice(f.3.0, 3)
    &&& !bad_choice(f.3.1, 4)
    &&& !bad_choice(f.3.2, 4)
    &&& !bad_choice(f.3.3, 4)
    &&& !bad_choice(f.3.4, 4)
    &&& !bad_choice(f.3.5, 4)
    &&& !bad_choice(f.3.6, 2)
}

/// The pit visit that the fields make up, if each number that stands for a
/// choice stands for one.
pub open spec fn visit_from_fields(f: VisitFieldsView) -> Option<RobotInfoView> {
    if visit_fields_valid(f) {
        Some(
            RobotInfoView {
                visit_number: f.0,
                team_number: f.1,
                pit: PitView {
                    pit_people: f.2.0,
                    chaos: f.2.1,
                    confidence_level: spec_confidence_level(f.2.2),
                    scouting_method: f.2.3,
                },
                robot: RobotView {
                    capabilities: Capabilities {
                        bumper_type: spec_bumper_type(f.3.0),
                        vision_type: spec_vision_type(f.3.1),
                        human_pickup_range: spec_human_pickup_range(f.3.2),
                        stack_type: spec_stack_type(f.3.3),
                        preferred_play: spec_preferred_play(f.3.4),
                        preferred_stack: spec_preferred_stack(f.3.5),
                        charge_battery: spec_charge_battery(f.3.6),
                        battery_amount: f.3.7,
                        drive_motor_amount: f.3.8,
                        other_motor_amount: f.3.9,
                        balance_time: f.3.10,
                    },
                    auto_settings: f.3.11,
                    drive_type: f.3.12,
                    comments: f.3.13,
                },
                images: f.4,
                last_modified_time: f.5,
            },
        )
    } else {
        None
    }
}

/// The number written for a choice reads back as that choice.
pub proof fn lemma_bumper_type_round_trip(c: Option<BumperType>)
    ensures
        spec_bumper_type(
            match c {
                Some(v) => Some(v.spec_to_u32()),
                None => None,
            },
        ) == c,
        !bad_choice(
            match c {
                Some(v) => Some(v.spec_to_u32()),
                None => None,
            },
            3,
        ),
{
}

/// The number written for a choice reads back as that choice.
pub proof fn lemma_vision_type_round_trip(c: Option<VisionType>)
    ensures
        spec_vision_type(
            match c {
                Some(v) => Some(v.spec_to_u32()),
                None => None,
            },
        ) == c,
        !bad_choice(
            match c {
                Some(v) => Some(v.spec_to_u32()),
                None => None,
            },
            4,
        ),
{
}

/// The number written for a choice reads back as that choice.
pub proof fn lemma_human_pickup_range_round_trip(c: Option<HumanPickupRange>)
    ensures
        spec_human_pickup_range(
            match c {
                Some(v) => Some(v.spec_to_u32()),
                None => None,
            },
        ) == c,
        !bad_choice(
            match c {
                Some(v) => Some(v.spec_to_u32()),
                None => None,
            },
            4,
        ),
{
}

/// The number written for a choice reads back as that choice.
pub proof fn lemma_stack_type_round_trip(c: Option<StackType>)
    ensures
        spec_stack_type(
            match c {
                Some(v) => Some(v.spec_to_u32()),
                None => None,
            },
        ) == c,
        !bad_choice(
            match c {
                Some(v) => Some(v.spec_to_u32()),
                None => None,
            },
            4,
        ),
{
}

/// The number written for a choice reads back as that choice.
pub proof fn lemma_preferred_play_round_trip(c: Option<PreferredPlay>)
    ensures
        spec_preferred_play(
            match c {
                Some(v) => Some(v.spec_to_u32()),
                None => None,
            },
        ) == c,
        !bad_choice(
            match c {
                Some(v) => Some(v.spec_to_u32()),
                None => None,
            },
            4,
        ),
{
}

/// The number written for a choice reads back as that choice.
pub proof fn lemma_preferred_stack_round_trip(c: Option<PreferredStack>)
    ensures
        spec_preferred_stack(
            match c {
                Some(v) => Some(v.spec_to_u32()),
                None => None,
            },
        ) == c,
        !bad_choice(
            match c {
                Some(v) => Some(v.spec_to_u32()),
                None => None,
            },
            4,
        ),
{
}

/// The number written for a choice reads back as that choice.
pub proof fn lemma_charge_battery_round_trip(c: Option<ChargeBattery>)
    ensures
        spec_charge_battery(
            match c {
                Some(v) => Some(v.spec_to_u32()),
                None => None,
            },
        ) == c,
        !bad_choice(
            match c {
                Some(v) => Some(v.spec_to_u32()),
                None => None,
            },
            2,
        ),
{
}

/// The number written for a choice reads back as that choice.
pub proof fn lemma_confidence_level_round_trip(c: Option<ConfidenceLevel>)
    ensures
        spec_confidence_level(
            match c {
                Some(v) => Some(v.spec_to_u32()),
                None => None,
            },
        ) == c,
        !bad_choice(
            match c {
                Some(v) => Some(v.spec_to_u32()),
                None => None,
            },
            5,
        ),
{
}

/// Fields made from a pit visit make up that visit again.
pub proof fn lemma_visit_fields_round_trip(r: RobotInfoView)
    ensures
        visit_from_fields(visit_fields(r)) == Some(r),
{
    let c = r.robot.capabilities;
    lemma_confidence_level_round_trip(r.pit.confidence_level);
    lemma_bumper_type_round_trip(c.bumper_type);
    lemma_vision_type_round_trip(c.vision_type);
    lemma_human_pickup_range_round_trip(c.human_pickup_range);
    lemma_stack_type_round_trip(c.stack_type);
    lemma_preferred_play_round_trip(c.preferred_play);
    lemma_preferred_stack_round_trip(c.preferred_stack);
    lemma_charge_battery_round_trip(c.charge_battery);
    let f = visit_fields(r);
    assert(visit_fields_valid(f));
    let back = visit_from_fields(f).unwrap();
    assert(back.pit == r.pit);
    assert(back.robot.capabilities == c);
    assert(back.robot == r.robot);
}

/// The pit visit that a list of bytes holds, if it holds one.
pub open spec fn stored_visit(bytes: Seq<u8>) -> Option<RobotInfoView> {
    match decoded_visit_fields(bytes) {
        Some(f) => visit_from_fields(f),
        None => None,
    }
}

/// The fields of a pit visit.
pub fn visit_to_fields(r: &RobotInfo) -> (f: VisitFields)
    ensures
        visit_fields_view(f) == visit_fields(r@),
{
    (
        r.visit_number,
        r.team_number,
        (
            r.pit.pit_people,
            r.pit.chaos,
            write_confidence_level(r.pit.confidence_level),
            r.pit.scouting_method.clone(),
        ),
        (
            write_bumper_type(r.robot.bumper_type),
            write_vision_type(r.robot.vision_type),
            write_human_pickup_range(r.robot.human_pickup_range),
            write_stack_type(r.robot.stack_type),
            write_preferred_play(r.robot.preferred_play),
            write_preferred_stack(r.robot.preferred_stack),
            write_charge_battery(r.robot.charge_battery),
            r.robot.battery_amount,
            r.robot.drive_motor_amount,
            r.robot.other_motor_amount,
            r.robot.balance_time,
            r.robot.auto_settings.clone(),
            r.robot.drive_type.clone(),
            r.robot.comments.clone(),
        ),
        clone_texts(&r.images),
        r.last_modified_time,
    )
}

/// The pit visit that the fields make up, if they make one up.
pub fn visit_of_fields(f: VisitFields) -> (r: Option<RobotInfo>)
    ensures
        r is Some <==> visit_from_fields(visit_fields_view(f)) is Some,
        r matches Some(record) ==> visit_from_fields(visit_fields_view(f)) == Some(record@),
{
    let confidence_level = match read_confidence_level(f.2.2) {
        Some(c) => c,
        None => {
            return None;
        },
    };
    let bumper_type = match read_bumper_type(f.3.0) {
        Some(c) => c,
        None => {
            return None;
        },
    };
    let vision_type = match read_vision_type(f.3.1) {
        Some(c) => c,
        None => {
            return None;
        },
    };
    let human_pickup_range = match read_human_pickup_range(f.3.2) {
        Some(c) => c,
        None => {
            return None;
        },
    };
    let stack_type = match read_stack_type(f.3.3) {
        Some(c) => c,
        None => {
            return None;
        },
    };
    let preferred_play = match read_preferred_play(f.3.4) {
        Some(c) => c,
        None => {
            return None;
        },
    };
    let preferred_stack = match read_preferred_stack(f.3.5) {
        Some(c) => c,
        None => {
            return None;
        },
    };
    let charge_battery = match read_charge_battery(f.3.6) {
        Some(c) => c,
        None => {
            return None;
        },
    };
    Some(
        RobotInfo {
            visit_number: f.0,
            team_number: f.1,
            pit: Pit {
                pit_people: f.2.0,
                chaos: f.2.1,
                confidence_level,
                scouting_method: f.2.3,
            },
            robot: Robot {
                bumper_type,
                vision_type,
                human_pickup_range,
                stack_type,
                preferred_play,
                preferred_stack,
                charge_battery,
                battery_amount: f.3.7,
                drive_motor_amount: f.3.8,
                other_motor_amount: f.3.9,
                balance_time: f.3.10,
                auto_settings: f.3.11,
                drive_type: f.3.12,
                comments: f.3.13,
            },
            images: f.4,
            last_modified_time: f.5,
        },
    )
}

} // verus!
