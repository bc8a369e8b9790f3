//! The scoring rules of the season: what a match record adds to each
//! statistic of its team.
//!
//! Every statistic is an integer in thousandths.

use crate::data::{AutoChargeStation, MatchInfo, MatchInfoView, SCALE, TeleopChargeStation};
use vstd::prelude::*;

verus! {

/// The number of statistics in a team's summary.
pub const STAT_COUNT: usize = 48;

/// The statistics below this index are averaged over a team's match records.
pub const MATCH_STATS: usize = 40;

// The index of each statistic in a team's summary. The scores are averages of
// points per match, the charge station entries the share of matches that
// ended in that state, and the overall entries averages of ratings.
pub const AVERAGE_AUTO_SCORE: usize = 0;
pub const AVERAGE_TELEOP_SCORE: usize = 1;
pub const AVERAGE_AUTO_HYBRID_SCORE: usize = 2;
pub const AVERAGE_AUTO_MIDDLE_SCORE: usize = 3;
pub const AVERAGE_AUTO_HIGH_SCORE: usize = 4;
pub const AVERAGE_AUTO_CONE_SCORE: usize = 5;
pub const AVERAGE_AUTO_CUBE_SCORE: usize = 6;
pub const AVERAGE_AUTO_HYBRID_CUBE_SCORE: usize = 7;
pub const AVERAGE_AUTO_HYBRID_CONE_SCORE: usize = 8;
pub const AVERAGE_AUTO_MIDDLE_CUBE_SCORE: usize = 9;
pub const AVERAGE_AUTO_MIDDLE_CONE_SCORE: usize = 10;
pub const AVERAGE_AUTO_HIGH_CUBE_SCORE: usize = 11;
pub const AVERAGE_AUTO_HIGH_CONE_SCORE: usize = 12;
pub const AVERAGE_TELEOP_HYBRID_SCORE: usize = 13;
pub const AVERAGE_TELEOP_MIDDLE_SCORE: usize = 14;
pub const AVERAGE_TELEOP_HIGH_SCORE: usize = 15;
pub const AVERAGE_TELEOP_CONE_SCORE: usize = 16;
pub const AVERAGE_TELEOP_CUBE_SCORE: usize = 17;
pub const AVERAGE_TELEOP_HYBRID_CUBE_SCORE: usize = 18;
pub const AVERAGE_TELEOP_HYBRID_CONE_SCORE: usize = 19;
pub const AVERAGE_TELEOP_MIDDLE_CUBE_SCORE: usize = 20;
pub const AVERAGE_TELEOP_MIDDLE_CONE_SCORE: usize = 21;
pub const AVERAGE_TELEOP_HIGH_CUBE_SCORE: usize = 22;
pub const AVERAGE_TELEOP_HIGH_CONE_SCORE: usize = 23;
pub const AVERAGE_CONE_SCORE: usize = 24;
pub const AVERAGE_CUBE_SCORE: usize = 25;
pub const AVERAGE_HYBRID_SCORE: usize = 26;
pub const AVERAGE_MIDDLE_SCORE: usize = 27;
pub const AVERAGE_HIGH_SCORE: usize = 28;
pub const CHARGE_STATION_AUTO_OFF: usize = 29;
pub const CHARGE_STATION_AUTO_ON: usize = 30;
pub const CHARGE_STATION_AUTO_CHARGED: usize = 31;
pub const CHARGE_STATION_AUTO_OTHER: usize = 32;
pub const CHARGE_STATION_TELEOP_OFF: usize = 33;
pub const CHARGE_STATION_TELEOP_PARKED: usize = 34;
pub const CHARGE_STATION_TELEOP_ON: usize = 35;
pub const CHARGE_STATION_TELEOP_CHARGED: usize = 36;
pub const OVERALL_SPEED: usize = 37;
pub const OVERALL_STABILITY: usize = 38;
pub const OVERALL_DEFENCE: usize = 39;

// Averages over the pit visits of a team.
pub const AVERAGE_PIT_PEOPLE: usize = 40;
pub const AVERAGE_CHAOS: usize = 41;
pub const AVERAGE_CONFIDENCE: usize = 42;

// What the ranking feed reports of a team.
pub const OPR: usize = 43;
pub const DPR: usize = 44;
pub const RANKING_POINTS: usize = 45;

// What the matches of a team say in view of its opponents and allies.
pub const AVERAGE_DEFENCE_SCORE: usize = 46;
pub const AVERAGE_LUCK_SCORE: usize = 47;

// The scoring rules of the season: points for a game piece by period and level,
// and bonuses by end state.
pub const AUTO_HYBRID_POINTS: u64 = 3;
pub const AUTO_MIDDLE_POINTS: u64 = 4;
pub const AUTO_HIGH_POINTS: u64 = 6;
pub const TELEOP_HYBRID_POINTS: u64 = 2;
pub const TELEOP_MIDDLE_POINTS: u64 = 3;
pub const TELEOP_HIGH_POINTS: u64 = 5;
pub const AUTO_MOBILITY_BONUS: u64 = 3;
pub const AUTO_DOCKED_BONUS: u64 = 8;
pub const AUTO_ENGAGED_BONUS: u64 = 12;
pub const TELEOP_PARKED_BONUS: u64 = 2;
pub const TELEOP_DOCKED_BONUS: u64 = 6;
pub const TELEOP_ENGAGED_BONUS: u64 = 10;

/// Bonus points of a record's autonomous period.
pub open spec fn auto_bonus(r: MatchInfoView) -> int {
    (if r.auto.exited_tarmac {
        AUTO_MOBILITY_BONUS as int
    } else {
        0
    }) + (match r.auto.auto_charge_station {
        AutoChargeStation::On => AUTO_DOCKED_BONUS as int,
        AutoChargeStation::Charged => AUTO_ENGAGED_BONUS as int,
        _ => 0,
    })
}

/// Bonus points of a record's driver-controlled period.
pub open spec fn teleop_bonus(r: MatchInfoView) -> int {
    match r.teleop.teleop_charge_station {
        TeleopChargeStation::On => TELEOP_DOCKED_BONUS as int,
        TeleopChargeStation::Charged => TELEOP_ENGAGED_BONUS as int,
        TeleopChargeStation::Parked => TELEOP_PARKED_BONUS as int,
        TeleopChargeStation::Off => 0,
    }
}

/// One where `b` holds, zero where it does not.
pub open spec fn indicator(b: bool) -> int {
    if b {
        1
    } else {
        0
    }
}

/// The points that record `r` adds to the score statistic `f`, or how often it
/// shows the end state that `f` counts. Zero for every other statistic.
pub open spec fn points(r: MatchInfoView, f: int) -> int {
    let a = r.auto;
    let t = r.teleop;
    let ah = AUTO_HYBRID_POINTS as int;
    let am = AUTO_MIDDLE_POINTS as int;
    let ahi = AUTO_HIGH_POINTS as int;
    let th = TELEOP_HYBRID_POINTS as int;
    let tm = TELEOP_MIDDLE_POINTS as int;
    let thi = TELEOP_HIGH_POINTS as int;
    if f == AVERAGE_AUTO_SCORE {
        ah * (a.hybrid_cube_scored + a.hybrid_cone_scored) + am * (a.middle_cube_scored
            + a.middle_cone_scored) + ahi * (a.high_cube_scored + a.high_cone_scored) + auto_bonus(
            r,
        )
    } else if f == AVERAGE_TELEOP_SCORE {
        th * (t.hybrid_cube_scored + t.hybrid_cone_scored) + tm * (t.middle_cube_scored
            + t.middle_cone_scored) + thi * (t.high_cube_scored + t.high_cone_scored)
            + teleop_bonus(r)
    } else if f == AVERAGE_AUTO_HYBRID_SCORE {
        ah * (a.hybrid_cube_scored + a.hybrid_cone_scored)
    } else if f == AVERAGE_AUTO_MIDDLE_SCORE {
        am * (a.middle_cube_scored + a.middle_cone_scored)
    } else if f == AVERAGE_AUTO_HIGH_SCORE {
        ahi * (a.high_cube_scored + a.high_cone_scored)
    } else if f == AVERAGE_AUTO_CONE_SCORE {
        ah * a.hybrid_cone_scored + am * a.middle_cone_scored + ahi * a.high_cone_scored
    } else if f == AVERAGE_AUTO_CUBE_SCORE {
        ah * a.hybrid_cube_scored + am * a.middle_cube_scored + ahi * a.high_cube_scored
    } else if f == AVERAGE_AUTO_HYBRID_CUBE_SCORE {
        ah * a.hybrid_cube_scored
    } else if f == AVERAGE_AUTO_HYBRID_CONE_SCORE {
        ah * a.hybrid_cone_scored
    } else if f == AVERAGE_AUTO_MIDDLE_CUBE_SCORE {
        am * a.middle_cube_scored
    } else if f == AVERAGE_AUTO_MIDDLE_CONE_SCORE {
        am * a.middle_cone_scored
    } else if f == AVERAGE_AUTO_HIGH_CUBE_SCORE {
        ahi * a.high_cube_scored
    } else if f == AVERAGE_AUTO_HIGH_CONE_SCORE {
        ahi * a.high_cone_scored
    } else if f == AVERAGE_TELEOP_HYBRID_SCORE {
        th * (t.hybrid_cube_scored + t.hybrid_cone_scored)
    } else if f == AVERAGE_TELEOP_MIDDLE_SCORE {
        tm * (t.middle_cube_scored + t.middle_cone_scored)
    } else if f == AVERAGE_TELEOP_HIGH_SCORE {
        thi * (t.high_cube_scored + t.high_cone_scored)
    } else if f == AVERAGE_TELEOP_CONE_SCORE {
        th * t.hybrid_cone_scored + tm * t.middle_cone_scored + thi * t.high_cone_scored
    } else if f == AVERAGE_TELEOP_CUBE_SCORE {
        th * t.hybrid_cube_scored + tm * t.middle_cube_scored + thi * t.high_cube_scored
    } else if f == AVERAGE_TELEOP_HYBRID_CUBE_SCORE {
        th * t.hybrid_cube_scored
    } else if f == AVERAGE_TELEOP_HYBRID_CONE_SCORE {
        th * t.hybrid_cone_scored
    } else if f == AVERAGE_TELEOP_MIDDLE_CUBE_SCORE {
        tm * t.middle_cube_scored
    } else if f == AVERAGE_TELEOP_MIDDLE_CONE_SCORE {
        tm * t.middle_cone_scored
    } else if f == AVERAGE_TELEOP_HIGH_CUBE_SCORE {
        thi * t.high_cube_scored
    } else if f == AVERAGE_TELEOP_HIGH_CONE_SCORE {
        thi * t.high_cone_scored
    } else if f == AVERAGE_CONE_SCORE {
        ah * a.hybrid_cone_scored + am * a.middle_cone_scored + ahi * a.high_cone_scored + th
            * t.hybrid_cone_scored + tm * t.middle_cone_scored + thi * t.high_cone_scored
    } else if f == AVERAGE_CUBE_SCORE {
        ah * a.hybrid_cube_scored + am * a.middle_cube_scored + ahi * a.high_cube_scored + th
            * t.hybrid_cube_scored + tm * t.middle_cube_scored + thi * t.high_cube_scored
    } else if f == AVERAGE_HYBRID_SCORE {
        ah * (a.hybrid_cube_scored + a.hybrid_cone_scored) + th * (t.hybrid_cube_scored
            + t.hybrid_cone_scored)
    } else if f == AVERAGE_MIDDLE_SCORE {
        am * (a.middle_cube_scored + a.middle_cone_scored) + tm * (t.middle_cube_scored
            + t.middle_cone_scored)
    } else if f == AVERAGE_HIGH_SCORE {
        ahi * (a.high_cube_scored + a.high_cone_scored) + thi * (t.high_cube_scored
            + t.high_cone_scored)
    } else if f == CHARGE_STATION_AUTO_OFF {
        indicator(a.auto_charge_station == AutoChargeStation::Off)
    } else if f == CHARGE_STATION_AUTO_ON {
        indicator(a.auto_charge_station == AutoChargeStation::On)
    } else if f == CHARGE_STATION_AUTO_CHARGED {
        indicator(a.auto_charge_station == AutoChargeStation::Charged)
    } else if f == CHARGE_STATION_AUTO_OTHER {
        indicator(a.auto_charge_station == AutoChargeStation::OtherRobot)
    } else if f == CHARGE_STATION_TELEOP_OFF {
        indicator(t.teleop_charge_station == TeleopChargeStation::Off)
    } else if f == CHARGE_STATION_TELEOP_PARKED {
        indicator(t.teleop_charge_station == TeleopChargeStation::Parked)
    } else if f == CHARGE_STATION_TELEOP_ON {
        indicator(t.teleop_charge_station == TeleopChargeStation::On)
    } else if f == CHARGE_STATION_TELEOP_CHARGED {
        indicator(t.teleop_charge_station == TeleopChargeStation::Charged)
    } else {
        0
    }
}

/// What record `r` adds to the running sum of statistic `f`, in thousandths:
/// its points, or its rating raised by one so that the scale runs from one.
pub open spec fn contribution(r: MatchInfoView, f: int) -> int {
    if f == OVERALL_SPEED {
        r.speed + SCALE
    } else if f == OVERALL_STABILITY {
        r.stability + SCALE
    } else if f == OVERALL_DEFENCE {
        match r.defence {
            Some(v) => v + SCALE,
            None => 0,
        }
    } else {
        SCALE * points(r, f)
    }
}

/// Whether record `r` counts among the records that statistic `f` is averaged
/// over. A record without a defence rating is left out of that average.
pub open spec fn counts_toward(r: MatchInfoView, f: int) -> bool {
    f == OVERALL_DEFENCE ==> r.defence is Some
}

/// No record adds more than this to a running sum.
pub const CONTRIBUTION_MAX: i128 = 0x1_0000_0000_0000;

/// Bonus points of a record's autonomous period.
fn auto_bonus_of(r: &MatchInfo) -> (b: u64)
    ensures
        b == auto_bonus(r@),
        b <= 15,
{
    let mobility: u64 = if r.auto.exited_tarmac {
        AUTO_MOBILITY_BONUS
    } else {
        0
    };
    let station: u64 = match r.auto.auto_charge_station {
        AutoChargeStation::On => AUTO_DOCKED_BONUS,
        AutoChargeStation::Charged => AUTO_ENGAGED_BONUS,
        _ => 0,
    };
    mobility + station
}

/// Bonus points of a record's driver-controlled period.
fn teleop_bonus_of(r: &MatchInfo) -> (b: u64)
    ensures
        b == teleop_bonus(r@),
        b <= 10,
{
    match r.teleop.teleop_charge_station {
        TeleopChargeStation::On => TELEOP_DOCKED_BONUS,
        TeleopChargeStation::Charged => TELEOP_ENGAGED_BONUS,
        TeleopChargeStation::Parked => TELEOP_PARKED_BONUS,
        TeleopChargeStation::Off => 0,
    }
}

/// One where `b` holds, zero where it does not.
fn indicator_of(b: bool) -> (i: u64)
    ensures
        i == indicator(b),
{
    if b {
        1
    } else {
        0
    }
}

/// The points that a record adds to a score statistic.
pub fn points_of(r: &MatchInfo, f: usize) -> (p: u64)
    ensures
        p == points(r@, f as int),
        p <= 0x40_0000_0000,
{
    let ahc: u64 = r.auto.hybrid_cube_scored as u64;
    let ahk: u64 = r.auto.hybrid_cone_scored as u64;
    let amc: u64 = r.auto.middle_cube_scored as u64;
    let amk: u64 = r.auto.middle_cone_scored as u64;
    let aic: u64 = r.auto.high_cube_scored as u64;
    let aik: u64 = r.auto.high_cone_scored as u64;
    let thc: u64 = r.teleop.hybrid_cube_scored as u64;
    let thk: u64 = r.teleop.hybrid_cone_scored as u64;
    let tmc: u64 = r.teleop.middle_cube_scored as u64;
    let tmk: u64 = r.teleop.middle_cone_scored as u64;
    let tic: u64 = r.teleop.high_cube_scored as u64;
    let tik: u64 = r.teleop.high_cone_scored as u64;
    let ah: u64 = AUTO_HYBRID_POINTS;
    let am: u64 = AUTO_MIDDLE_POINTS;
    let ahi: u64 = AUTO_HIGH_POINTS;
    let th: u64 = TELEOP_HYBRID_POINTS;
    let tm: u64 = TELEOP_MIDDLE_POINTS;
    let thi: u64 = TELEOP_HIGH_POINTS;
    if f == AVERAGE_AUTO_SCORE {
        ah * (ahc + ahk) + am * (amc + amk) + ahi * (aic + aik) + auto_bonus_of(r)
    } else if f == AVERAGE_TELEOP_SCORE {
        th * (thc + thk) + tm * (tmc + tmk) + thi * (tic + tik) + teleop_bonus_of(r)
    } else if f == AVERAGE_AUTO_HYBRID_SCORE {
        ah * (ahc + ahk)
    } else if f == AVERAGE_AUTO_MIDDLE_SCORE {
        am * (amc + amk)
    } else if f == AVERAGE_AUTO_HIGH_SCORE {
        ahi * (aic + aik)
    } else if f == AVERAGE_AUTO_CONE_SCORE {
        ah * ahk + am * amk + ahi * aik
    } else if f == AVERAGE_AUTO_CUBE_SCORE {
        ah * ahc + am * amc + ahi * aic
    } else if f == AVERAGE_AUTO_HYBRID_CUBE_SCORE {
        ah * ahc
    } else if f == AVERAGE_AUTO_HYBRID_CONE_SCORE {
        ah * ahk
    } else if f == AVERAGE_AUTO_MIDDLE_CUBE_SCORE {
        am * amc
    } else if f == AVERAGE_AUTO_MIDDLE_CONE_SCORE {
        am * amk
    } else if f == AVERAGE_AUTO_HIGH_CUBE_SCORE {
        ahi * aic
    } else if f == AVERAGE_AUTO_HIGH_CONE_SCORE {
        ahi * aik
    } else if f == AVERAGE_TELEOP_HYBRID_SCORE {
        th * (thc + thk)
    } else if f == AVERAGE_TELEOP_MIDDLE_SCORE {
        tm * (tmc + tmk)
    } else if f == AVERAGE_TELEOP_HIGH_SCORE {
        thi * (tic + tik)
    } else if f == AVERAGE_TELEOP_CONE_SCORE {
        th * thk + tm * tmk + thi * tik
    } else if f == AVERAGE_TELEOP_CUBE_SCORE {
        th * thc + tm * tmc + thi * tic
    } else if f == AVERAGE_TELEOP_HYBRID_CUBE_SCORE {
        th * thc
    } else if f == AVERAGE_TELEOP_HYBRID_CONE_SCORE {
        th * thk
    } else if f == AVERAGE_TELEOP_MIDDLE_CUBE_SCORE {
        tm * tmc
    } else if f == AVERAGE_TELEOP_MIDDLE_CONE_SCORE {
        tm * tmk
    } else if f == AVERAGE_TELEOP_HIGH_CUBE_SCORE {
        thi * tic
    } else if f == AVERAGE_TELEOP_HIGH_CONE_SCORE {
        thi * tik
    } else if f == AVERAGE_CONE_SCORE {
        ah * ahk + am * amk + ahi * aik + th * thk + tm * tmk + thi * tik
    } else if f == AVERAGE_CUBE_SCORE {
        ah * ahc + am * amc + ahi * aic + th * thc + tm * tmc + thi * tic
    } else if f == AVERAGE_HYBRID_SCORE {
        ah * (ahc + ahk) + th * (thc + thk)
    } else if f == AVERAGE_MIDDLE_SCORE {
        am * (amc + amk) + tm * (tmc + tmk)
    } else if f == AVERAGE_HIGH_SCORE {
        ahi * (aic + aik) + thi * (tic + tik)
    } else if f == CHARGE_STATION_AUTO_OFF {
        indicator_of(r.auto.auto_charge_station == AutoChargeStation::Off)
    } else if f == CHARGE_STATION_AUTO_ON {
        indicator_of(r.auto.auto_charge_station == AutoChargeStation::On)
    } else if f == CHARGE_STATION_AUTO_CHARGED {
        indicator_of(r.auto.auto_charge_station == AutoChargeStation::Charged)
    } else if f == CHARGE_STATION_AUTO_OTHER {
        indicator_of(r.auto.auto_charge_station == AutoChargeStation::OtherRobot)
    } else if f == CHARGE_STATION_TELEOP_OFF {
        indicator_of(r.teleop.teleop_charge_station == TeleopChargeStation::Off)
    } else if f == CHARGE_STATION_TELEOP_PARKED {
        indicator_of(r.teleop.teleop_charge_station == TeleopChargeStation::Parked)
    } else if f == CHARGE_STATION_TELEOP_ON {
        indicator_of(r.teleop.teleop_charge_station == TeleopChargeStation::On)
    } else if f == CHARGE_STATION_TELEOP_CHARGED {
        indicator_of(r.teleop.teleop_charge_station == TeleopChargeStation::Charged)
    } else {
        0
    }
}

/// `n` units in thousandths.
pub(crate) fn scaled(n: u64) -> (v: i128)
    requires
        n <= 0x40_0000_0000,
    ensures
        v == SCALE * n,
        0 <= v <= CONTRIBUTION_MAX,
{
    assert(SCALE * n == 1000 * n) by (nonlinear_arith)
        requires
            SCALE == 1000,
    ;
    1000 * (n as i128)
}

/// What a record adds to the running sum of a statistic, in thousandths.
pub fn contribution_of(r: &MatchInfo, f: usize) -> (c: i128)
    ensures
        c == contribution(r@, f as int),
        0 <= c <= CONTRIBUTION_MAX,
{
    if f == OVERALL_SPEED {
        r.speed as i128 + SCALE as i128
    } else if f == OVERALL_STABILITY {
        r.stability as i128 + SCALE as i128
    } else if f == OVERALL_DEFENCE {
        match r.defence {
            Some(v) => v as i128 + SCALE as i128,
            None => 0,
        }
    } else {
        scaled(points_of(r, f))
    }
}

/// What a record adds to a running sum is within bounds, and nothing where
/// the record does not count.
pub proof fn lemma_contribution_bounds(r: MatchInfoView, f: int)
    ensures
        0 <= contribution(r, f) <= CONTRIBUTION_MAX,
        !counts_toward(r, f) ==> contribution(r, f) == 0,
{
}

} // verus!
