//! The records that scouts submit: one per team and match, and one per pit visit.
//!
//! Ratings that scouts give on a sliding scale are held in thousandths, so a
//! rating of 2.5 is stored as 2500.

use vstd::prelude::*;

verus! {

/// How many thousandths make one unit of a rating or an average.
pub const SCALE: u32 = 1000;

/// The category a match was played in.
#[derive(Debug, Copy, Clone, Hash, PartialEq, Eq, Structural)]
pub enum MatchType {
    Qualification,
    Practice,
}

impl MatchType {
    /// The number that stands for this value in stored and exchanged records.
    pub open spec fn spec_to_u32(self) -> u32 {
        match self {
            MatchType::Qualification => 0,
            MatchType::Practice => 1,
        }
    }

    /// The value that `value` stands for, if it stands for one.
    pub open spec fn spec_from_u32(value: u32) -> Option<Self> {
        if value == 0 {
            Some(MatchType::Qualification)
        } else if value == 1 {
            Some(MatchType::Practice)
        } else {
            None
        }
    }

    /// The number that stands for this value.
    pub fn to_u32(self) -> (value: u32)
        ensures
            value == self.spec_to_u32(),
            Self::spec_from_u32(value) == Some(self),
    {
        match self {
            MatchType::Qualification => 0,
            MatchType::Practice => 1,
        }
    }

    /// The value that a number stands for, if it stands for one.
    pub fn from_u32(value: u32) -> (result: Option<Self>)
        ensures
            result == Self::spec_from_u32(value),
            result matches Some(v) ==> v.spec_to_u32() == value,
            result is None <==> value >= 2,
    {
        if value == 0 {
            Some(MatchType::Qualification)
        } else if value == 1 {
            Some(MatchType::Practice)
        } else {
            None
        }
    }

    /// The name under which this value is written in keys and exports.
    pub fn name(&self) -> (text: &'static str)
        ensures
            text@ == self.spec_name(),
    {
        match self {
            MatchType::Qualification => "Qualification",
            MatchType::Practice => "Practice",
        }
    }

    /// The name under which this value is written in keys and exports.
    pub open spec fn spec_name(&self) -> Seq<char> {
        match self {
            MatchType::Qualification => "Qualification"@,
            MatchType::Practice => "Practice"@,
        }
    }
}

impl Default for MatchType {
    fn default() -> (value: Self)
        ensures
            value == MatchType::Practice,
    {
        MatchType::Practice
    }
}

/// Where the robot ended the autonomous period relative to the charge station.
#[derive(Debug, Copy, Clone, PartialEq, Eq, Structural)]
pub enum AutoChargeStation {
    Off,
    On,
    Charged,
    OtherRobot,
}

impl AutoChargeStation {
    /// The number that stands for this value in stored and exchanged records.
    pub open spec fn spec_to_u32(self) -> u32 {
        match self {
            AutoChargeStation::Off => 0,
            AutoChargeStation::On => 1,
            AutoChargeStation::Charged => 2,
            AutoChargeStation::OtherRobot => 3,
        }
    }

    /// The value that `value` stands for, if it stands for one.
    pub open spec fn spec_from_u32(value: u32) -> Option<Self> {
        if value == 0 {
            Some(AutoChargeStation::Off)
        } else if value == 1 {
            Some(AutoChargeStation::On)
        } else if value == 2 {
            Some(AutoChargeStation::Charged)
        } else if value == 3 {
            Some(AutoChargeStation::OtherRobot)
        } else {
            None
        }
    }

    /// The number that stands for this value.
    pub fn to_u32(self) -> (value: u32)
        ensures
            value == self.spec_to_u32(),
            Self::spec_from_u32(value) == Some(self),
    {
        match self {
            AutoChargeStation::Off => 0,
            AutoChargeStation::On => 1,
            AutoChargeStation::Charged => 2,
            AutoChargeStation::OtherRobot => 3,
        }
    }

    /// The value that a number stands for, if it stands for one.
    pub fn from_u32(value: u32) -> (result: Option<Self>)
        ensures
            result == Self::spec_from_u32(value),
            result matches Some(v) ==> v.spec_to_u32() == value,
            result is None <==> value >= 4,
    {
        if value == 0 {
            Some(AutoChargeStation::Off)
        } else if value == 1 {
            Some(AutoChargeStation::On)
        } else if value == 2 {
            Some(AutoChargeStation::Charged)
        } else if value == 3 {
            Some(AutoChargeStation::OtherRobot)
        } else {
            None
        }
    }

    /// The name under which this value is written in keys and exports.
    pub fn name(&self) -> (text: &'static str)
        ensures
            text@ == self.spec_name(),
    {
        match self {
            AutoChargeStation::Off => "Off",
            AutoChargeStation::On => "On",
            AutoChargeStation::Charged => "Charged",
            AutoChargeStation::OtherRobot => "OtherRobot",
        }
    }

    /// The name under which this value is written in keys and exports.
    pub open spec fn spec_name(&self) -> Seq<char> {
        match self {
            AutoChargeStation::Off => "Off"@,
            AutoChargeStation::On => "On"@,
            AutoChargeStation::Charged => "Charged"@,
            AutoChargeStation::OtherRobot => "OtherRobot"@,
        }
    }
}

impl Default for AutoChargeStation {
    fn default() -> (value: Self)
        ensures
            value == AutoChargeStation::Off,
    {
        AutoChargeStation::Off
    }
}

/// Where the robot ended the match relative to the charge station.
#[derive(Debug, Copy, Clone, PartialEq, Eq, Structural)]
pub enum TeleopChargeStation {
    Off,
    Parked,
    On,
    Charged,
}

impl TeleopChargeStation {
    /// The number that stands for this value in stored and exchanged records.
    pub open spec fn spec_to_u32(self) -> u32 {
        match self {
            TeleopChargeStation::Off => 0,
            TeleopChargeStation::Parked => 1,
            TeleopChargeStation::On => 2,
            TeleopChargeStation::Charged => 3,
        }
    }

    /// The value that `value` stands for, if it stands for one.
    pub open spec fn spec_from_u32(value: u32) -> Option<Self> {
        if value == 0 {
            Some(TeleopChargeStation::Off)
        } else if value == 1 {
            Some(TeleopChargeStation::Parked)
        } else if value == 2 {
            Some(TeleopChargeStation::On)
        } else if value == 3 {
            Some(TeleopChargeStation::Charged)
        } else {
            None
        }
    }

    /// The number that stands for this value.
    pub fn to_u32(self) -> (value: u32)
        ensures
            value == self.spec_to_u32(),
            Self::spec_from_u32(value) == Some(self),
    {
        match self {
            TeleopChargeStation::Off => 0,
            TeleopChargeStation::Parked => 1,
            TeleopChargeStation::On => 2,
            TeleopChargeStation::Charged => 3,
        }
    }

    /// The value that a number stands for, if it stands for one.
    pub fn from_u32(value: u32) -> (result: Option<Self>)
        ensures
            result == Self::spec_from_u32(value),
            result matches Some(v) ==> v.spec_to_u32() == value,
            result is None <==> value >= 4,
    {
        if value == 0 {
            Some(TeleopChargeStation::Off)
        } else if value == 1 {
            Some(TeleopChargeStation::Parked)
        } else if value == 2 {
            Some(TeleopChargeStation::On)
        } else if value == 3 {
            Some(TeleopChargeStation::Charged)
        } else {
            None
        }
    }

    /// The name under which this value is written in keys and exports.
    pub fn name(&self) -> (text: &'static str)
        ensures
            text@ == self.spec_name(),
    {
        match self {
            TeleopChargeStation::Off => "Off",
            TeleopChargeStation::Parked => "Parked",
            TeleopChargeStation::On => "On",
            TeleopChargeStation::Charged => "Charged",
        }
    }

    /// The name under which this value is written in keys and exports.
    pub open spec fn spec_name(&self) -> Seq<char> {
        match self {
            TeleopChargeStation::Off => "Off"@,
            TeleopChargeStation::Parked => "Parked"@,
            TeleopChargeStation::On => "On"@,
            TeleopChargeStation::Charged => "Charged"@,
        }
    }
}

impl Default for TeleopChargeStation {
    fn default() -> (value: Self)
        ensures
            value == TeleopChargeStation::Off,
    {
        TeleopChargeStation::Off
    }
}

/// The style of play a team says it prefers.
#[derive(Debug, Copy, Clone, PartialEq, Eq, Structural)]
pub enum PreferredPlay {
    Defence,
    PreferDefence,
    PreferOffence,
    Offence,
}

impl PreferredPlay {
    /// The number that stands for this value in stored and exchanged records.
    pub open spec fn spec_to_u32(self) -> u32 {
        match self {
            PreferredPlay::Defence => 0,
            PreferredPlay::PreferDefence => 1,
            PreferredPlay::PreferOffence => 2,
            PreferredPlay::Offence => 3,
        }
    }

    /// The value that `value` stands for, if it stands for one.
    pub open spec fn spec_from_u32(value: u32) -> Option<Self> {
        if value == 0 {
            Some(PreferredPlay::Defence)
        } else if value == 1 {
            Some(PreferredPlay::PreferDefence)
        } else if value == 2 {
            Some(PreferredPlay::PreferOffence)
        } else if value == 3 {
            Some(PreferredPlay::Offence)
        } else {
            None
        }
    }

    /// The number that stands for this value.
    pub fn to_u32(self) -> (value: u32)
        ensures
            value == self.spec_to_u32(),
            Self::spec_from_u32(value) == Some(self),
    {
        match self {
            PreferredPlay::Defence => 0,
            PreferredPlay::PreferDefence => 1,
            PreferredPlay::PreferOffence => 2,
            PreferredPlay::Offence => 3,
        }
    }

    /// The value that a number stands for, if it stands for one.
    pub fn from_u32(value: u32) -> (result: Option<Self>)
        ensures
            result == Self::spec_from_u32(value),
            result matches Some(v) ==> v.spec_to_u32() == value,
            result is None <==> value >= 4,
    {
        if value == 0 {
            Some(PreferredPlay::Defence)
        } else if value == 1 {
            Some(PreferredPlay::PreferDefence)
        } else if value == 2 {
            Some(PreferredPlay::PreferOffence)
        } else if value == 3 {
            Some(PreferredPlay::Offence)
        } else {
            None
        }
    }
}

impl Default for PreferredPlay {
    fn default() -> (value: Self)
        ensures
            value == PreferredPlay::PreferOffence,
    {
        PreferredPlay::PreferOffence
    }
}

/// Where the robot can take game pieces from the human player.
#[derive(Debug, Copy, Clone, PartialEq, Eq, Structural)]
pub enum HumanPickupRange {
    NoPickup,
    Chute,
    SlideShelf,
    Both,
}

impl HumanPickupRange {
    /// The number that stands for this value in stored and exchanged records.
    pub open spec fn spec_to_u32(self) -> u32 {
        match self {
            HumanPickupRange::NoPickup => 0,
            HumanPickupRange::Chute => 1,
            HumanPickupRange::SlideShelf => 2,
            HumanPickupRange::Both => 3,
        }
    }

    /// The value that `value` stands for, if it stands for one.
    pub open spec fn spec_from_u32(value: u32) -> Option<Self> {
        if value == 0 {
            Some(HumanPickupRange::NoPickup)
        } else if value == 1 {
            Some(HumanPickupRange::Chute)
        } else if value == 2 {
            Some(HumanPickupRange::SlideShelf)
        } else if value == 3 {
            Some(HumanPickupRange::Both)
        } else {
            None
        }
    }

    /// The number that stands for this value.
    pub fn to_u32(self) -> (value: u32)
        ensures
            value == self.spec_to_u32(),
            Self::spec_from_u32(value) == Some(self),
    {
        match self {
            HumanPickupRange::NoPickup => 0,
            HumanPickupRange::Chute => 1,
            HumanPickupRange::SlideShelf => 2,
            HumanPickupRange::Both => 3,
        }
    }

    /// The value that a number stands for, if it stands for one.
    pub fn from_u32(value: u32) -> (result: Option<Self>)
        ensures
            result == Self::spec_from_u32(value),
            result matches Some(v) ==> v.spec_to_u32() == value,
            result is None <==> value >= 4,
    {
        if value == 0 {
            Some(HumanPickupRange::NoPickup)
        } else if value == 1 {
            Some(HumanPickupRange::Chute)
        } else if value == 2 {
            Some(HumanPickupRange::SlideShelf)
        } else if value == 3 {
            Some(HumanPickupRange::Both)
        } else {
            None
        }
    }
}

impl Default for HumanPickupRange {
    fn default() -> (value: Self)
        ensures
            value == HumanPickupRange::NoPickup,
    {
        HumanPickupRange::NoPickup
    }
}

/// Which game pieces the robot can place.
#[derive(Debug, Copy, Clone, PartialEq, Eq, Structural)]
pub enum StackType {
    NoStack,
    Cone,
    Cube,
    Both,
}

impl StackType {
    /// The number that stands for this value in stored and exchanged records.
    pub open spec fn spec_to_u32(self) -> u32 {
        match self {
            StackType::NoStack => 0,
            StackType::Cone => 1,
            StackType::Cube => 2,
            StackType::Both => 3,
        }
    }

    /// The value that `value` stands for, if it stands for one.
    pub open spec fn spec_from_u32(value: u32) -> Option<Self> {
        if value == 0 {
            Some(StackType::NoStack)
        } else if value == 1 {
            Some(StackType::Cone)
        } else if value == 2 {
            Some(StackType::Cube)
        } else if value == 3 {
            Some(StackType::Both)
        } else {
            None
        }
    }

    /// The number that stands for this value.
    pub fn to_u32(self) -> (value: u32)
        ensures
            value == self.spec_to_u32(),
            Self::spec_from_u32(value) == Some(self),
    {
        match self {
            StackType::NoStack => 0,
            StackType::Cone => 1,
            StackType::Cube => 2,
            StackType::Both => 3,
        }
    }

    /// The value that a number stands for, if it stands for one.
    pub fn from_u32(value: u32) -> (result: Option<Self>)
        ensures
            result == Self::spec_from_u32(value),
            result matches Some(v) ==> v.spec_to_u32() == value,
            result is None <==> value >= 4,
    {
        if value == 0 {
            Some(StackType::NoStack)
        } else if value == 1 {
            Some(StackType::Cone)
        } else if value == 2 {
            Some(StackType::Cube)
        } else if value == 3 {
            Some(StackType::Both)
        } else {
            None
        }
    }
}

/// The scoring level a team prefers.
#[derive(Debug, Copy, Clone, PartialEq, Eq, Structural)]
pub enum PreferredStack {
    NoPreference,
    Hybrid,
    Middle,
    High,
}

impl PreferredStack {
    /// The number that stands for this value in stored and exchanged records.
    pub open spec fn spec_to_u32(self) -> u32 {
        match self {
            PreferredStack::NoPreference => 0,
            PreferredStack::Hybrid => 1,
            PreferredStack::Middle => 2,
            PreferredStack::High => 3,
        }
    }

    /// The value that `value` stands for, if it stands for one.
    pub open spec fn spec_from_u32(value: u32) -> Option<Self> {
        if value == 0 {
            Some(PreferredStack::NoPreference)
        } else if value == 1 {
            Some(PreferredStack::Hybrid)
        } else if value == 2 {
            Some(PreferredStack::Middle)
        } else if value == 3 {
            Some(PreferredStack::High)
        } else {
            None
        }
    }

    /// The number that stands for this value.
    pub fn to_u32(self) -> (value: u32)
        ensures
            value == self.spec_to_u32(),
            Self::spec_from_u32(value) == Some(self),
    {
        match self {
            PreferredStack::NoPreference => 0,
            PreferredStack::Hybrid => 1,
            PreferredStack::Middle => 2,
            PreferredStack::High => 3,
        }
    }

    /// The value that a number stands for, if it stands for one.
    pub fn from_u32(value: u32) -> (result: Option<Self>)
        ensures
            result == Self::spec_from_u32(value),
            result matches Some(v) ==> v.spec_to_u32() == value,
            result is None <==> value >= 4,
    {
        if value == 0 {
            Some(PreferredStack::NoPreference)
        } else if value == 1 {
            Some(PreferredStack::Hybrid)
        } else if value == 2 {
            Some(PreferredStack::Middle)
        } else if value == 3 {
            Some(PreferredStack::High)
        } else {
            None
        }
    }
}

impl Default for PreferredStack {
    fn default() -> (value: Self)
        ensures
            value == PreferredStack::NoPreference,
    {
        PreferredStack::NoPreference
    }
}

/// How confident the pit crew appeared.
#[derive(Debug, Copy, Clone, PartialEq, Eq, Structural)]
pub enum ConfidenceLevel {
    HonestlyUnconfident,
    SemiUnconfident,
    Middle,
    Confident,
    TooConfident,
}

impl ConfidenceLevel {
    /// The number that stands for this value in stored and exchanged records.
    pub open spec fn spec_to_u32(self) -> u32 {
        match self {
            ConfidenceLevel::HonestlyUnconfident => 0,
            ConfidenceLevel::SemiUnconfident => 1,
            ConfidenceLevel::Middle => 2,
            ConfidenceLevel::Confident => 3,
            ConfidenceLevel::TooConfident => 4,
        }
    }

    /// The value that `value` stands for, if it stands for one.
    pub open spec fn spec_from_u32(value: u32) -> Option<Self> {
        if value == 0 {
            Some(ConfidenceLevel::HonestlyUnconfident)
        } else if value == 1 {
            Some(ConfidenceLevel::SemiUnconfident)
        } else if value == 2 {
            Some(ConfidenceLevel::Middle)
        } else if value == 3 {
            Some(ConfidenceLevel::Confident)
        } else if value == 4 {
            Some(ConfidenceLevel::TooConfident)
        } else {
            None
        }
    }

    /// The number that stands for this value.
    pub fn to_u32(self) -> (value: u32)
        ensures
            value == self.spec_to_u32(),
            Self::spec_from_u32(value) == Some(self),
    {
        match self {
            ConfidenceLevel::HonestlyUnconfident => 0,
            ConfidenceLevel::SemiUnconfident => 1,
            ConfidenceLevel::Middle => 2,
            ConfidenceLevel::Confident => 3,
            ConfidenceLevel::TooConfident => 4,
        }
    }

    /// The value that a number stands for, if it stands for one.
    pub fn from_u32(value: u32) -> (result: Option<Self>)
        ensures
            result == Self::spec_from_u32(value),
            result matches Some(v) ==> v.spec_to_u32() == value,
            result is None <==> value >= 5,
    {
        if value == 0 {
            Some(ConfidenceLevel::HonestlyUnconfident)
        } else if value == 1 {
            Some(ConfidenceLevel::SemiUnconfident)
        } else if value == 2 {
            Some(ConfidenceLevel::Middle)
        } else if value == 3 {
            Some(ConfidenceLevel::Confident)
        } else if value == 4 {
            Some(ConfidenceLevel::TooConfident)
        } else {
            None
        }
    }
}

impl Default for ConfidenceLevel {
    fn default() -> (value: Self)
        ensures
            value == ConfidenceLevel::Middle,
    {
        ConfidenceLevel::Middle
    }
}

/// Whether the team charges its batteries between matches.
#[derive(Debug, Copy, Clone, PartialEq, Eq, Structural)]
pub enum ChargeBattery {
    No,
    Yes,
}

impl ChargeBattery {
    /// The number that stands for this value in stored and exchanged records.
    pub open spec fn spec_to_u32(self) -> u32 {
        match self {
            ChargeBattery::No => 0,
            ChargeBattery::Yes => 1,
        }
    }

    /// The value that `value` stands for, if it stands for one.
    pub open spec fn spec_from_u32(value: u32) -> Option<Self> {
        if value == 0 {
            Some(ChargeBattery::No)
        } else if value == 1 {
            Some(ChargeBattery::Yes)
        } else {
            None
        }
    }

    /// The number that stands for this value.
    pub fn to_u32(self) -> (value: u32)
        ensures
            value == self.spec_to_u32(),
            Self::spec_from_u32(value) == Some(self),
    {
        match self {
            ChargeBattery::No => 0,
            ChargeBattery::Yes => 1,
        }
    }

    /// The value that a number stands for, if it stands for one.
    pub fn from_u32(value: u32) -> (result: Option<Self>)
        ensures
            result == Self::spec_from_u32(value),
            result matches Some(v) ==> v.spec_to_u32() == value,
            result is None <==> value >= 2,
    {
        if value == 0 {
            Some(ChargeBattery::No)
        } else if value == 1 {
            Some(ChargeBattery::Yes)
        } else {
            None
        }
    }
}

impl Default for ChargeBattery {
    fn default() -> (value: Self)
        ensures
            value == ChargeBattery::No,
    {
        ChargeBattery::No
    }
}

/// The vision targets the robot can track.
#[derive(Debug, Copy, Clone, PartialEq, Eq, Structural)]
pub enum VisionType {
    NoVision,
    Tape,
    AprilTags,
    Both,
}

impl VisionType {
    /// The number that stands for this value in stored and exchanged records.
    pub open spec fn spec_to_u32(self) -> u32 {
        match self {
            VisionType::NoVision => 0,
            VisionType::Tape => 1,
            VisionType::AprilTags => 2,
            VisionType::Both => 3,
        }
    }

    /// The value that `value` stands for, if it stands for one.
    pub open spec fn spec_from_u32(value: u32) -> Option<Self> {
        if value == 0 {
            Some(VisionType::NoVision)
        } else if value == 1 {
            Some(VisionType::Tape)
        } else if value == 2 {
            Some(VisionType::AprilTags)
        } else if value == 3 {
            Some(VisionType::Both)
        } else {
            None
        }
    }

    /// The number that stands for this value.
    pub fn to_u32(self) -> (value: u32)
        ensures
            value == self.spec_to_u32(),
            Self::spec_from_u32(value) == Some(self),
    {
        match self {
            VisionType::NoVision => 0,
            VisionType::Tape => 1,
            VisionType::AprilTags => 2,
            VisionType::Both => 3,
        }
    }

    /// The value that a number stands for, if it stands for one.
    pub fn from_u32(value: u32) -> (result: Option<Self>)
        ensures
            result == Self::spec_from_u32(value),
            result matches Some(v) ==> v.spec_to_u32() == value,
            result is None <==> value >= 4,
    {
        if value == 0 {
            Some(VisionType::NoVision)
        } else if value == 1 {
            Some(VisionType::Tape)
        } else if value == 2 {
            Some(VisionType::AprilTags)
        } else if value == 3 {
            Some(VisionType::Both)
        } else {
            None
        }
    }
}

impl Default for VisionType {
    fn default() -> (value: Self)
        ensures
            value == VisionType::NoVision,
    {
        VisionType::NoVision
    }
}

/// How the robot changes bumper colour.
#[derive(Debug, Copy, Clone, PartialEq, Eq, Structural)]
pub enum BumperType {
    NoBumper,
    Swap,
    Reversable,
}

impl BumperType {
    /// The number that stands for this value in stored and exchanged records.
    pub open spec fn spec_to_u32(self) -> u32 {
        match self {
            BumperType::NoBumper => 0,
            BumperType::Swap => 1,
            BumperType::Reversable => 2,
        }
    }

    /// The value that `value` stands for, if it stands for one.
    pub open spec fn spec_from_u32(value: u32) -> Option<Self> {
        if value == 0 {
            Some(BumperType::NoBumper)
        } else if value == 1 {
            Some(BumperType::Swap)
        } else if value == 2 {
            Some(BumperType::Reversable)
        } else {
            None
        }
    }

    /// The number that stands for this value.
    pub fn to_u32(self) -> (value: u32)
        ensures
            value == self.spec_to_u32(),
            Self::spec_from_u32(value) == Some(self),
    {
        match self {
            BumperType::NoBumper => 0,
            BumperType::Swap => 1,
            BumperType::Reversable => 2,
        }
    }

    /// The value that a number stands for, if it stands for one.
    pub fn from_u32(value: u32) -> (result: Option<Self>)
        ensures
            result == Self::spec_from_u32(value),
            result matches Some(v) ==> v.spec_to_u32() == value,
            result is None <==> value >= 3,
    {
        if value == 0 {
            Some(BumperType::NoBumper)
        } else if value == 1 {
            Some(BumperType::Swap)
        } else if value == 2 {
            Some(BumperType::Reversable)
        } else {
            None
        }
    }
}

impl Default for BumperType {
    fn default() -> (value: Self)
        ensures
            value == BumperType::NoBumper,
    {
        BumperType::NoBumper
    }
}

/// What a scout saw of one robot in the autonomous period.
#[derive(Debug, Copy, Clone, PartialEq, Eq, Structural)]
pub struct Auto {
    pub exited_tarmac: bool,
    pub auto_charge_station: AutoChargeStation,
    pub hybrid_cube_scored: u32,
    pub hybrid_cone_scored: u32,
    pub middle_cube_scored: u32,
    pub middle_cone_scored: u32,
    pub high_cube_scored: u32,
    pub high_cone_scored: u32,
}

impl Auto {
    /// The record of a robot that did nothing in the autonomous period.
    pub open spec fn spec_default() -> Auto {
        Auto {
            exited_tarmac: false,
            auto_charge_station: AutoChargeStation::Off,
            hybrid_cube_scored: 0,
            hybrid_cone_scored: 0,
            middle_cube_scored: 0,
            middle_cone_scored: 0,
            high_cube_scored: 0,
            high_cone_scored: 0,
        }
    }
}

impl Default for Auto {
    fn default() -> (value: Self)
        ensures
            value == Auto::spec_default(),
    {
        Auto {
            exited_tarmac: false,
            auto_charge_station: AutoChargeStation::Off,
            hybrid_cube_scored: 0,
            hybrid_cone_scored: 0,
            middle_cube_scored: 0,
            middle_cone_scored: 0,
            high_cube_scored: 0,
            high_cone_scored: 0,
        }
    }
}

/// What a scout saw of one robot in the driver-controlled period.
#[derive(Debug, Copy, Clone, PartialEq, Eq, Structural)]
pub struct Teleop {
    pub hybrid_cube_scored: u32,
    pub hybrid_cone_scored: u32,
    pub middle_cube_scored: u32,
    pub middle_cone_scored: u32,
    pub high_cube_scored: u32,
    pub high_cone_scored: u32,
    pub parked: bool,
    pub teleop_charge_station: TeleopChargeStation,
}

impl Teleop {
    /// The record of a robot that did nothing in the driver-controlled period.
    pub open spec fn spec_default() -> Teleop {
        Teleop {
            hybrid_cube_scored: 0,
            hybrid_cone_scored: 0,
            middle_cube_scored: 0,
            middle_cone_scored: 0,
            high_cube_scored: 0,
            high_cone_scored: 0,
            parked: false,
            teleop_charge_station: TeleopChargeStation::Off,
        }
    }
}

impl Default for Teleop {
    fn default() -> (value: Self)
        ensures
            value == Teleop::spec_default(),
    {
        Teleop {
            hybrid_cube_scored: 0,
            hybrid_cone_scored: 0,
            middle_cube_scored: 0,
            middle_cone_scored: 0,
            high_cube_scored: 0,
            high_cone_scored: 0,
            parked: false,
            teleop_charge_station: TeleopChargeStation::Off,
        }
    }
}

/// One team's observed performance in one match.
///
/// `speed`, `stability` and `defence` are ratings in thousandths.
#[derive(Debug)]
pub struct MatchInfo {
    pub match_number: u32,
    pub match_category: MatchType,
    pub team_number: u32,
    pub auto: Auto,
    pub teleop: Teleop,
    pub speed: u32,
    pub stability: u32,
    pub defence: Option<u32>,
    pub is_primary_defence: bool,
    pub was_broken: bool,
    pub was_disabled: bool,
    pub notes: String,
    pub last_modified_time: u64,
}

/// A match record as a mathematical value.
pub struct MatchInfoView {
    pub match_number: u32,
    pub match_category: MatchType,
    pub team_number: u32,
    pub auto: Auto,
    pub teleop: Teleop,
    pub speed: u32,
    pub stability: u32,
    pub defence: Option<u32>,
    pub is_primary_defence: bool,
    pub was_broken: bool,
    pub was_disabled: bool,
    pub notes: Seq<char>,
    pub last_modified_time: u64,
}

impl View for MatchInfo {
    type V = MatchInfoView;

    open spec fn view(&self) -> MatchInfoView {
        MatchInfoView {
            match_number: self.match_number,
            match_category: self.match_category,
            team_number: self.team_number,
            auto: self.auto,
            teleop: self.teleop,
            speed: self.speed,
            stability: self.stability,
            defence: self.defence,
            is_primary_defence: self.is_primary_defence,
            was_broken: self.was_broken,
            was_disabled: self.was_disabled,
            notes: self.notes@,
            last_modified_time: self.last_modified_time,
        }
    }
}

impl Clone for MatchInfo {
    fn clone(&self) -> (copy: Self)
        ensures
            copy@ == self@,
    {
        MatchInfo {
            match_number: self.match_number,
            match_category: self.match_category,
            team_number: self.team_number,
            auto: self.auto,
            teleop: self.teleop,
            speed: self.speed,
            stability: self.stability,
            defence: self.defence,
            is_primary_defence: self.is_primary_defence,
            was_broken: self.was_broken,
            was_disabled: self.was_disabled,
            notes: self.notes.clone(),
            last_modified_time: self.last_modified_time,
        }
    }
}

impl Default for MatchInfo {
    fn default() -> (value: Self)
        ensures
            value@ == (MatchInfoView {
                match_number: 0,
                match_category: MatchType::Practice,
                team_number: 0,
                auto: Auto::spec_default(),
                teleop: Teleop::spec_default(),
                speed: 0,
                stability: 0,
                defence: None,
                is_primary_defence: false,
                was_broken: false,
                was_disabled: false,
                notes: Seq::empty(),
                last_modified_time: 0,
            }),
    {
        MatchInfo {
            match_number: 0,
            match_category: MatchType::Practice,
            team_number: 0,
            auto: Auto::default(),
            teleop: Teleop::default(),
            speed: 0,
            stability: 0,
            defence: None,
            is_primary_defence: false,
            was_broken: false,
            was_disabled: false,
            notes: String::new(),
            last_modified_time: 0,
        }
    }
}

/// What a scout noted about a team's pit.
#[derive(Debug)]
pub struct Pit {
    pub pit_people: Option<u32>,
    pub chaos: Option<u32>,
    pub confidence_level: Option<ConfidenceLevel>,
    pub scouting_method: String,
}

/// A pit note as a mathematical value.
pub struct PitView {
    pub pit_people: Option<u32>,
    pub chaos: Option<u32>,
    pub confidence_level: Option<ConfidenceLevel>,
    pub scouting_method: Seq<char>,
}

impl View for Pit {
    type V = PitView;

    open spec fn view(&self) -> PitView {
        PitView {
            pit_people: self.pit_people,
            chaos: self.chaos,
            confidence_level: self.confidence_level,
            scouting_method: self.scouting_method@,
        }
    }
}

impl Clone for Pit {
    fn clone(&self) -> (copy: Self)
        ensures
            copy@ == self@,
    {
        Pit {
            pit_people: self.pit_people,
            chaos: self.chaos,
            confidence_level: self.confidence_level,
            scouting_method: self.scouting_method.clone(),
        }
    }
}

impl Default for Pit {
    fn default() -> (value: Self)
        ensures
            value@ == (PitView {
                pit_people: None,
                chaos: None,
                confidence_level: None,
                scouting_method: Seq::empty(),
            }),
    {
        Pit { pit_people: None, chaos: None, confidence_level: None, scouting_method: String::new() }
    }
}

/// What a team says its robot can do: the part of a pit visit that is made of
/// choices and counts.
#[derive(Debug, Copy, Clone, PartialEq, Eq, Structural)]
pub struct Capabilities {
    pub bumper_type: Option<BumperType>,
    pub vision_type: Option<VisionType>,
    pub human_pickup_range: Option<HumanPickupRange>,
    pub stack_type: Option<StackType>,
    pub preferred_play: Option<PreferredPlay>,
    pub preferred_stack: Option<PreferredStack>,
    pub charge_battery: Option<ChargeBattery>,
    pub battery_amount: Option<u32>,
    pub drive_motor_amount: Option<u32>,
    pub other_motor_amount: Option<u32>,
    pub balance_time: Option<u32>,
}

/// What a scout noted about a team's robot.
#[derive(Debug)]
pub struct Robot {
    pub bumper_type: Option<BumperType>,
    pub vision_type: Option<VisionType>,
    pub human_pickup_range: Option<HumanPickupRange>,
    pub stack_type: Option<StackType>,
    pub preferred_play: Option<PreferredPlay>,
    pub preferred_stack: Option<PreferredStack>,
    pub charge_battery: Option<ChargeBattery>,
    pub battery_amount: Option<u32>,
    pub drive_motor_amount: Option<u32>,
    pub other_motor_amount: Option<u32>,
    pub balance_time: Option<u32>,
    pub auto_settings: String,
    pub drive_type: String,
    pub comments: String,
}

/// A robot note as a mathematical value.
pub struct RobotView {
    pub capabilities: Capabilities,
    pub auto_settings: Seq<char>,
    pub drive_type: Seq<char>,
    pub comments: Seq<char>,
}

impl Robot {
    /// The choices and counts of this note.
    pub open spec fn spec_capabilities(&self) -> Capabilities {
        Capabilities {
            bumper_type: self.bumper_type,
            vision_type: self.vision_type,
            human_pickup_range: self.human_pickup_range,
            stack_type: self.stack_type,
            preferred_play: self.preferred_play,
            preferred_stack: self.preferred_stack,
            charge_battery: self.charge_battery,
            battery_amount: self.battery_amount,
            drive_motor_amount: self.drive_motor_amount,
            other_motor_amount: self.other_motor_amount,
            balance_time: self.balance_time,
        }
    }

    /// The choices and counts of this note.
    pub fn capabilities(&self) -> (c: Capabilities)
        ensures
            c == self.spec_capabilities(),
    {
        Capabilities {
            bumper_type: self.bumper_type,
            vision_type: self.vision_type,
            human_pickup_range: self.human_pickup_range,
            stack_type: self.stack_type,
            preferred_play: self.preferred_play,
            preferred_stack: self.preferred_stack,
            charge_battery: self.charge_battery,
            battery_amount: self.battery_amount,
            drive_motor_amount: self.drive_motor_amount,
            other_motor_amount: self.other_motor_amount,
            balance_time: self.balance_time,
        }
    }
}

impl View for Robot {
    type V = RobotView;

    open spec fn view(&self) -> RobotView {
        RobotView {
            capabilities: self.spec_capabilities(),
            auto_settings: self.auto_settings@,
            drive_type: self.drive_type@,
            comments: self.comments@,
        }
    }
}

impl Clone for Robot {
    fn clone(&self) -> (copy: Self)
        ensures
            copy@ == self@,
    {
        Robot {
            bumper_type: self.bumper_type,
            vision_type: self.vision_type,
            human_pickup_range: self.human_pickup_range,
            stack_type: self.stack_type,
            preferred_play: self.preferred_play,
            preferred_stack: self.preferred_stack,
            charge_battery: self.charge_battery,
            battery_amount: self.battery_amount,
            drive_motor_amount: self.drive_motor_amount,
            other_motor_amount: self.other_motor_amount,
            balance_time: self.balance_time,
            auto_settings: self.auto_settings.clone(),
            drive_type: self.drive_type.clone(),
            comments: self.comments.clone(),
        }
    }
}

impl Default for Robot {
    fn default() -> (value: Self)
        ensures
            value@ == (RobotView {
                capabilities: Capabilities {
                    bumper_type: None,
                    vision_type: None,
                    human_pickup_range: None,
                    stack_type: None,
                    preferred_play: None,
                    preferred_stack: None,
                    charge_battery: None,
                    battery_amount: None,
                    drive_motor_amount: None,
                    other_motor_amount: None,
                    balance_time: None,
                },
                auto_settings: Seq::empty(),
                drive_type: Seq::empty(),
                comments: Seq::empty(),
            }),
    {
        Robot {
            bumper_type: None,
            vision_type: None,
            human_pickup_range: None,
            stack_type: None,
            preferred_play: None,
            preferred_stack: None,
            charge_battery: None,
            battery_amount: None,
            drive_motor_amount: None,
            other_motor_amount: None,
            balance_time: None,
            auto_settings: String::new(),
            drive_type: String::new(),
            comments: String::new(),
        }
    }
}

/// One inspection of a team's robot in the pit.
#[derive(Debug)]
pub struct RobotInfo {
    pub visit_number: u32,
    pub team_number: u32,
    pub pit: Pit,
    pub robot: Robot,
    pub images: Vec<String>,
    pub last_modified_time: u64,
}

/// A pit visit as a mathematical value.
pub struct RobotInfoView {
    pub visit_number: u32,
    pub team_number: u32,
    pub pit: PitView,
    pub robot: RobotView,
    pub images: Seq<Seq<char>>,
    pub last_modified_time: u64,
}

/// The texts of a list of strings.
pub open spec fn texts(list: Seq<String>) -> Seq<Seq<char>> {
    Seq::new(list.len(), |i: int| list[i]@)
}

/// A copy of a list of strings.
pub fn clone_texts(list: &Vec<String>) -> (copy: Vec<String>)
    ensures
        texts(copy@) == texts(list@),
{
    let mut copy: Vec<String> = Vec::new();
    let mut i: usize = 0;
    while i < list.len()
        invariant
            i <= list.len(),
            copy@.len() == i,
            forall|j: int| 0 <= j < i ==> copy@[j]@ == list@[j]@,
        decreases list.len() - i,
    {
        copy.push(list[i].clone());
        i += 1;
    }
    assert(texts(copy@) =~= texts(list@));
    copy
}

impl View for RobotInfo {
    type V = RobotInfoView;

    open spec fn view(&self) -> RobotInfoView {
        RobotInfoView {
            visit_number: self.visit_number,
            team_number: self.team_number,
            pit: self.pit@,
            robot: self.robot@,
            images: texts(self.images@),
            last_modified_time: self.last_modified_time,
        }
    }
}

impl Clone for RobotInfo {
    fn clone(&self) -> (copy: Self)
        ensures
            copy@ == self@,
    {
        RobotInfo {
            visit_number: self.visit_number,
            team_number: self.team_number,
            pit: self.pit.clone(),
            robot: self.robot.clone(),
            images: clone_texts(&self.images),
            last_modified_time: self.last_modified_time,
        }
    }
}

impl Default for RobotInfo {
    fn default() -> (value: Self)
        ensures
            value.visit_number == 0,
            value.team_number == 0,
            value.images@.len() == 0,
            value.last_modified_time == 0,
    {
        RobotInfo {
            visit_number: 0,
            team_number: 0,
            pit: Pit::default(),
            robot: Robot::default(),
            images: Vec::new(),
            last_modified_time: 0,
        }
    }
}

/// A record of either kind, as it is exchanged between servers.
#[derive(Debug)]
pub enum Info {
    MatchInfo(MatchInfo),
    RobotInfo(RobotInfo),
}

/// An exchanged record as a mathematical value.
pub enum InfoView {
    MatchInfo(MatchInfoView),
    RobotInfo(RobotInfoView),
}

impl View for Info {
    type V = InfoView;

    open spec fn view(&self) -> InfoView {
        match self {
            Info::MatchInfo(m) => InfoView::MatchInfo(m@),
            Info::RobotInfo(r) => InfoView::RobotInfo(r@),
        }
    }
}

impl Clone for Info {
    fn clone(&self) -> (copy: Self)
        ensures
            copy@ == self@,
    {
        match self {
            Info::MatchInfo(m) => Info::MatchInfo(m.clone()),
            Info::RobotInfo(r) => Info::RobotInfo(r.clone()),
        }
    }
}

impl Default for Info {
    fn default() -> (value: Self)
        ensures
            value is MatchInfo,
    {
        Info::MatchInfo(MatchInfo::default())
    }
}

/// The match records of a list as mathematical values.
pub open spec fn match_views(list: Seq<MatchInfo>) -> Seq<MatchInfoView> {
    Seq::new(list.len(), |i: int| list[i]@)
}

/// The pit visits of a list as mathematical values.
pub open spec fn robot_views(list: Seq<RobotInfo>) -> Seq<RobotInfoView> {
    Seq::new(list.len(), |i: int| list[i]@)
}

} // verus!
