//! One match as the ranking feed knows it.

use crate::tba::{alliance_numbers, alliance_numbers_of, RawMatchData};
use crate::text::{append_decimal, decimal_text};
use vstd::prelude::*;
use vstd::string::StringExecFns;

verus! {

/// Which match is meant: a qualifier by its number, a playoff match by its
/// set and its number within the set, a final by its number.
#[derive(Debug, Clone, Copy, PartialEq, Eq, Structural)]
pub enum Match {
    Qualifier(u8),
    SemiFinals(u8, u8),
    QuarterFinals(u8, u8),
    Finals(u8),
}

/// The teams of one alliance.
#[derive(Debug)]
pub struct AllianceData {
    pub teams: Vec<u32>,
}

/// The teams of the two alliances of a match.
#[derive(Debug)]
pub struct AlliancesData {
    pub blue: AllianceData,
    pub red: AllianceData,
}

/// A match as the ranking feed knows it, with the alliances as team numbers.
#[derive(Debug)]
pub struct MatchData {
    pub comp_level: String,
    pub match_number: u32,
    pub set_number: u32,
    pub alliances: AlliancesData,
    pub winning_alliance: String,
}

/// The code by which the feed knows a match: `qm12`, `sf2m1`, `qf3m2` or
/// `f1m2`.
pub open spec fn match_code(m: Match) -> Seq<char> {
    match m {
        Match::Qualifier(i) => "qm"@ + decimal_text(i as nat),
        Match::SemiFinals(s, i) => "sf"@ + decimal_text(s as nat) + "m"@ + decimal_text(i as nat),
        Match::QuarterFinals(s, i) => "qf"@ + decimal_text(s as nat) + "m"@ + decimal_text(
            i as nat,
        ),
        Match::Finals(i) => "f1m"@ + decimal_text(i as nat),
    }
}

/// The code by which the feed knows a match.
pub fn match_code_of(m: Match) -> (code: String)
    ensures
        code@ == match_code(m),
{
    let mut code = String::new();
    assert(code@ + "qm"@ =~= "qm"@);
    assert(code@ + "sf"@ =~= "sf"@);
    assert(code@ + "qf"@ =~= "qf"@);
    assert(code@ + "f1m"@ =~= "f1m"@);
    match m {
        Match::Qualifier(i) => {
            code.append("qm");
            append_decimal(&mut code, i as u64);
        },
        Match::SemiFinals(s, i) => {
            code.append("sf");
            append_decimal(&mut code, s as u64);
            code.append("m");
            append_decimal(&mut code, i as u64);
        },
        Match::QuarterFinals(s, i) => {
            code.append("qf");
            append_decimal(&mut code, s as u64);
            code.append("m");
            append_decimal(&mut code, i as u64);
        },
        Match::Finals(i) => {
            code.append("f1m");
            append_decimal(&mut code, i as u64);
        },
    }
    code
}

/// What the feed sent of a match, with the alliances as team numbers;
/// nothing where the feed sent nothing.
pub fn get_match_data(fetched: Option<RawMatchData>) -> (data: Option<MatchData>)
    ensures
        data is Some <==> fetched is Some,
        (data, fetched) matches (Some(d), Some(raw)) ==> {
            &&& d.comp_level@ == raw.comp_level@
            &&& d.match_number == raw.match_number
            &&& d.set_number == raw.set_number
            &&& d.alliances.blue.teams@ == alliance_numbers(raw.alliances.blue)
            &&& d.alliances.red.teams@ == alliance_numbers(raw.alliances.red)
            &&& d.winning_alliance@ == raw.winning_alliance@
        },
{
    match fetched {
        Some(raw) => {
            let blue = alliance_numbers_of(&raw.alliances.blue);
            let red = alliance_numbers_of(&raw.alliances.red);
            Some(
                MatchData {
                    comp_level: raw.comp_level,
                    match_number: raw.match_number,
                    set_number: raw.set_number,
                    alliances: AlliancesData {
                        blue: AllianceData { teams: blue },
                        red: AllianceData { teams: red },
                    },
                    winning_alliance: raw.winning_alliance,
                },
            )
        },
        None => None,
    }
}

} // verus!
