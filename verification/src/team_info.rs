//! What is known of one team: its pit visits, its pictures and its matches.

use crate::data::{
    match_views, robot_views, texts, MatchInfo, MatchInfoView, RobotInfo, RobotInfoView,
};
use crate::database::{match_listing, present, robot_listing, Database, DatabaseError};
use crate::match_info::{line_up, line_up_of, line_up_views, match_time, match_time_of, pairs};
use crate::tba::{alliance_numbers, alliance_numbers_of, RawMatchData};
use crate::text::{append_decimal, chars_of, decimal_text, digit_char, same_text};
use vstd::prelude::*;
use vstd::string::StringExecFns;

verus! {

/// Whether `c` is one of the ten decimal digits.
pub open spec fn is_digit(c: char) -> bool {
    '0' <= c <= '9'
}

/// The number that a sequence of decimal digits writes.
pub open spec fn decimal_value(digits: Seq<char>) -> nat
    decreases digits.len(),
{
    if digits.len() == 0 {
        0
    } else {
        10 * decimal_value(digits.drop_last()) + (digits.last() as u32 - '0' as u32) as nat
    }
}

/// `text` without every occurrence of `frc`, taken from the left.
pub open spec fn without_frc(text: Seq<char>) -> Seq<char>
    decreases text.len(),
{
    if text.len() == 0 {
        Seq::empty()
    } else if text.len() >= 3 && text[0] == 'f' && text[1] == 'r' && text[2] == 'c' {
        without_frc(text.skip(3))
    } else {
        seq![text[0]] + without_frc(text.skip(1))
    }
}

/// Whether `text` is made of decimal digits alone.
pub open spec fn all_digits(text: Seq<char>) -> bool {
    forall|i: int| 0 <= i < text.len() ==> is_digit(#[trigger] text[i])
}

/// The number that the digits write, where there is at least one digit,
/// nothing but digits, and the number fits in 32 bits.
pub open spec fn digits_value(digits: Seq<char>) -> Option<u32> {
    if digits.len() > 0 && all_digits(digits) && decimal_value(digits) <= u32::MAX {
        Some(decimal_value(digits) as u32)
    } else {
        None
    }
}

/// The number that `text` writes in decimal digits, with or without a plus
/// sign in front; nothing where `text` holds anything else, no digit at all,
/// or a number above 32 bits.
pub open spec fn unsigned_value(text: Seq<char>) -> Option<u32> {
    if text.len() > 0 && text[0] == '+' {
        digits_value(text.skip(1))
    } else {
        digits_value(text)
    }
}

/// The team number that a team key such as `frc254` stands for.
pub open spec fn team_key_number(key: Seq<char>) -> Option<u32> {
    unsigned_value(without_frc(key))
}

/// A number written with more digits is no smaller.
pub proof fn lemma_decimal_value_grows(digits: Seq<char>, n: int)
    requires
        0 <= n <= digits.len(),
        all_digits(digits),
    ensures
        decimal_value(digits.take(n)) <= decimal_value(digits),
    decreases digits.len() - n,
{
    if n < digits.len() {
        lemma_decimal_value_grows(digits, n + 1);
        assert(digits.take(n + 1).drop_last() =~= digits.take(n));
        assert(is_digit(digits[n]));
    } else {
        assert(digits.take(n) =~= digits);
    }
}

/// `text` without every occurrence of `frc`.
fn strip_frc(text: &Vec<char>) -> (out: Vec<char>)
    ensures
        out@ == without_frc(text@),
{
    let n = text.len();
    let mut out: Vec<char> = Vec::new();
    let mut i: usize = 0;
    assert(text@.skip(0) =~= text@);
    assert(out@ + without_frc(text@) =~= without_frc(text@));
    while i < n
        invariant
            i <= n,
            n == text.len(),
            without_frc(text@) == out@ + without_frc(text@.skip(i as int)),
        decreases n - i,
    {
        let ghost rest = text@.skip(i as int);
        if n - i >= 3 && text[i] == 'f' && text[i + 1] == 'r' && text[i + 2] == 'c' {
            assert(rest[0] == 'f' && rest[1] == 'r' && rest[2] == 'c');
            assert(rest.skip(3) =~= text@.skip(i + 3));
            i += 3;
        } else {
            assert(rest[0] == text@[i as int]);
            assert(rest.len() >= 3 ==> rest[1] == text@[i + 1] && rest[2] == text@[i + 2]);
            assert(rest.skip(1) =~= text@.skip(i + 1));
            let ghost before = out@;
            out.push(text[i]);
            assert(before + (seq![rest[0]] + without_frc(rest.skip(1))) =~= out@ + without_frc(
                rest.skip(1),
            ));
            i += 1;
        }
    }
    assert(text@.skip(n as int) =~= Seq::empty());
    assert(out@ + Seq::<char>::empty() =~= out@);
    out
}

/// The number that `text` writes, as `unsigned_value` defines it.
fn parse_unsigned(text: &Vec<char>) -> (value: Option<u32>)
    ensures
        value == unsigned_value(text@),
{
    let n = text.len();
    let start: usize = if n > 0 && text[0] == '+' {
        1
    } else {
        0
    };
    let ghost digits = text@.skip(start as int);
    assert(text@.skip(0) =~= text@);
    assert(unsigned_value(text@) == digits_value(digits));
    if start == n {
        return None;
    }
    let mut value: u64 = 0;
    let mut i: usize = start;
    while i < n
        invariant
            start <= i <= n,
            n == text.len(),
            digits == text@.skip(start as int),
            unsigned_value(text@) == digits_value(digits),
            forall|j: int| 0 <= j < i - start ==> is_digit(#[trigger] digits[j]),
            value == decimal_value(digits.take(i - start)),
            value <= u32::MAX,
        decreases n - i,
    {
        let c = text[i];
        assert(digits[i - start] == c);
        if c < '0' || c > '9' {
            assert(!is_digit(digits[i - start]));
            return None;
        }
        let d: u64 = (c as u32 - '0' as u32) as u64;
        proof {
            assert(digits.take(i - start + 1).drop_last() =~= digits.take(i - start));
            assert(digits.take(i - start + 1).last() == c);
        }
        let next: u64 = 10 * value + d;
        if next > u32::MAX as u64 {
            proof {
                if all_digits(digits) {
                    lemma_decimal_value_grows(digits, i - start + 1);
                }
            }
            return None;
        }
        value = next;
        i += 1;
    }
    assert(digits.take(n - start) =~= digits);
    Some(value as u32)
}

/// The team number that a team key stands for, if it stands for one.
pub fn parse_team_key(team_key: &str) -> (team: Option<u32>)
    ensures
        team == team_key_number(team_key@),
{
    let chars = chars_of(team_key);
    let bare = strip_frc(&chars);
    parse_unsigned(&bare)
}

/// The team number that a team key stands for.
pub fn team_key_to_number(team_key: &str) -> (team: u32)
    requires
        team_key_number(team_key@) is Some,
    ensures
        team_key_number(team_key@) == Some(team),
{
    match parse_team_key(team_key) {
        Some(team) => team,
        None => 0,
    }
}

/// The colour of an alliance.
#[derive(Debug, Clone, Copy, PartialEq, Eq, Structural)]
pub enum AllianceColour {
    Blue,
    Red,
}

/// A match of one team with the scouted records of all its teams.
#[derive(Debug)]
pub struct FullMatchInfo {
    pub time: u64,
    /// The alliance that the team played in.
    pub alliance: AllianceColour,
    pub blue_teams: Vec<(u32, Option<MatchInfo>)>,
    pub red_teams: Vec<(u32, Option<MatchInfo>)>,
    pub blue_score: i32,
    pub red_score: i32,
}

/// What is known of one team.
#[derive(Debug)]
pub struct FullTeamInfo {
    pub team_number: u32,
    pub matches: Vec<FullMatchInfo>,
    pub images: Vec<String>,
    pub pit_visits: Vec<RobotInfo>,
}

/// A picture of a robot in the feed.
#[derive(Debug)]
pub struct RawMediaInfo {
    pub direct_url: String,
    pub preferred: bool,
}

/// The key of a team: `frc` and its number.
pub open spec fn team_key_text(team: u32) -> Seq<char> {
    "frc"@ + decimal_text(team as nat)
}

/// The key of a team.
pub fn team_key_of(team: u32) -> (key: String)
    ensures
        key@ == team_key_text(team),
{
    let mut key = String::new();
    assert(key@ + "frc"@ =~= "frc"@);
    key.append("frc");
    append_decimal(&mut key, team as u64);
    key
}

/// The decimal digits of a number are digits, at least one, and write that
/// number.
pub proof fn lemma_decimal_text(n: nat)
    ensures
        decimal_text(n).len() >= 1,
        all_digits(decimal_text(n)),
        decimal_value(decimal_text(n)) == n,
    decreases n,
{
    if n < 10 {
        assert(decimal_text(n).drop_last() =~= Seq::<char>::empty());
        assert(decimal_text(n).last() == digit_char(n));
        assert(decimal_value(decimal_text(n).drop_last()) == 0);
    } else {
        lemma_decimal_text(n / 10);
        assert(decimal_text(n).drop_last() =~= decimal_text(n / 10));
        assert(decimal_text(n).last() == digit_char(n % 10));
    }
}

/// A text of digits holds no `frc` to take out.
pub proof fn lemma_digits_hold_no_frc(text: Seq<char>)
    requires
        all_digits(text),
    ensures
        without_frc(text) == text,
    decreases text.len(),
{
    if text.len() > 0 {
        assert(is_digit(text[0]));
        let rest = text.skip(1);
        assert forall|i: int| 0 <= i < rest.len() implies is_digit(#[trigger] rest[i]) by {
            assert(rest[i] == text[i + 1]);
        }
        lemma_digits_hold_no_frc(rest);
        assert(seq![text[0]] + rest =~= text);
    }
}

/// The key that is written for a team stands for that team.
pub proof fn lemma_team_key_stands_for_team(team: u32)
    ensures
        team_key_number(team_key_text(team)) == Some(team),
{
    let digits = decimal_text(team as nat);
    let key = team_key_text(team);
    reveal_strlit("frc");
    lemma_decimal_text(team as nat);
    assert(key.len() >= 3 && key[0] == 'f' && key[1] == 'r' && key[2] == 'c');
    assert(key.skip(3) =~= digits);
    lemma_digits_hold_no_frc(digits);
    assert(without_frc(key) == digits);
    assert(is_digit(digits[0]));
}

/// Whether one of the keys is the key of `team`.
pub open spec fn names_team(keys: Seq<String>, team: u32) -> bool {
    exists|k: int| 0 <= k < keys.len() && (#[trigger] keys[k])@ == team_key_text(team)
}

/// The alliance that `team` played in: blue where the blue alliance names
/// it, red otherwise.
pub open spec fn colour_of(raw: RawMatchData, team: u32) -> AllianceColour {
    if names_team(raw.alliances.blue.team_keys@, team) {
        AllianceColour::Blue
    } else {
        AllianceColour::Red
    }
}

/// The alliance that `team` played in.
pub fn colour_of_team(raw: &RawMatchData, team: u32) -> (colour: AllianceColour)
    ensures
        colour == colour_of(*raw, team),
{
    let key = team_key_of(team);
    let keys = &raw.alliances.blue.team_keys;
    let mut k: usize = 0;
    while k < keys.len()
        invariant
            k <= keys.len(),
            key@ == team_key_text(team),
            keys == &raw.alliances.blue.team_keys,
            forall|j: int| 0 <= j < k ==> (#[trigger] keys@[j])@ != team_key_text(team),
        decreases keys.len() - k,
    {
        if same_text(keys[k].as_str(), key.as_str()) {
            return AllianceColour::Blue;
        }
        k += 1;
    }
    AllianceColour::Red
}

/// The first position in `sorted` whose visit number is above `number`; the
/// length of `sorted` where none is.
pub open spec fn first_after(sorted: Seq<RobotInfoView>, number: u32) -> int
    decreases sorted.len(),
{
    if sorted.len() == 0 {
        0
    } else if sorted.first().visit_number > number {
        0
    } else {
        1 + first_after(sorted.drop_first(), number)
    }
}

/// `sorted` with `visit` put in before the first visit of a higher number.
pub open spec fn put_visit(sorted: Seq<RobotInfoView>, visit: RobotInfoView) -> Seq<RobotInfoView> {
    sorted.insert(first_after(sorted, visit.visit_number), visit)
}

/// The pit visits of `team` by rising visit number. Visits of the same
/// number keep the order they came in.
pub open spec fn team_visits(visits: Seq<RobotInfoView>, team: u32) -> Seq<RobotInfoView>
    decreases visits.len(),
{
    if visits.len() == 0 {
        Seq::empty()
    } else if visits.last().team_number == team {
        put_visit(team_visits(visits.drop_last(), team), visits.last())
    } else {
        team_visits(visits.drop_last(), team)
    }
}

/// Whether no visit has a higher number than one that comes after it.
pub open spec fn rising(visits: Seq<RobotInfoView>) -> bool {
    forall|i: int, j: int|
        0 <= i <= j < visits.len() ==> visits[i].visit_number <= visits[j].visit_number
}

/// The position that `first_after` gives is within the list, no visit before
/// it has a higher number, and the visit at it has.
pub proof fn lemma_first_after(sorted: Seq<RobotInfoView>, number: u32)
    ensures
        0 <= first_after(sorted, number) <= sorted.len(),
        forall|i: int|
            0 <= i < first_after(sorted, number) ==> (#[trigger] sorted[i]).visit_number <= number,
        first_after(sorted, number) < sorted.len() ==> sorted[first_after(
            sorted,
            number,
        )].visit_number > number,
    decreases sorted.len(),
{
    if sorted.len() > 0 && sorted.first().visit_number <= number {
        let rest = sorted.drop_first();
        lemma_first_after(rest, number);
        assert forall|i: int| 0 <= i < first_after(sorted, number) implies (
        #[trigger] sorted[i]).visit_number <= number by {
            if i > 0 {
                assert(sorted[i] == rest[i - 1]);
            }
        }
        assert(first_after(sorted, number) < sorted.len() ==> sorted[first_after(sorted, number)]
            == rest[first_after(rest, number)]);
    }
}

/// The visits of a team come by rising visit number, all are of that team,
/// and there are as many as the team has visits.
pub proof fn lemma_team_visits(visits: Seq<RobotInfoView>, team: u32)
    ensures
        rising(team_visits(visits, team)),
        forall|i: int|
            0 <= i < team_visits(visits, team).len() ==> (#[trigger] team_visits(
                visits,
                team,
            )[i]).team_number == team,
        team_visits(visits, team).len() <= visits.len(),
    decreases visits.len(),
{
    if visits.len() > 0 {
        let before = team_visits(visits.drop_last(), team);
        lemma_team_visits(visits.drop_last(), team);
        if visits.last().team_number == team {
            let v = visits.last();
            let at = first_after(before, v.visit_number);
            lemma_first_after(before, v.visit_number);
            let out = put_visit(before, v);
            assert forall|i: int, j: int| 0 <= i <= j < out.len() implies out[i].visit_number
                <= out[j].visit_number by {
                if i < at {
                    assert(out[i] == before[i]);
                    if j < at {
                        assert(out[j] == before[j]);
                    } else if j > at {
                        assert(out[j] == before[j - 1]);
                    }
                } else if i == at {
                    if j > at {
                        assert(out[j] == before[j - 1]);
                        assert(before[at].visit_number <= before[j - 1].visit_number);
                    }
                } else {
                    assert(out[i] == before[i - 1]);
                    assert(out[j] == before[j - 1]);
                }
            }
            assert forall|i: int| 0 <= i < out.len() implies (#[trigger] out[i]).team_number
                == team by {
                if i < at {
                    assert(out[i] == before[i]);
                } else if i > at {
                    assert(out[i] == before[i - 1]);
                }
            }
        }
    }
}

/// The pictures of a list of visits, visit by visit.
pub open spec fn all_images(visits: Seq<RobotInfoView>) -> Seq<Seq<char>>
    decreases visits.len(),
{
    if visits.len() == 0 {
        Seq::empty()
    } else {
        all_images(visits.drop_last()) + visits.last().images
    }
}

/// The addresses of the pictures in the feed that are preferred, or of those
/// that are not, in their order.
pub open spec fn media_urls(media: Seq<RawMediaInfo>, preferred: bool) -> Seq<Seq<char>>
    decreases media.len(),
{
    if media.len() == 0 {
        Seq::empty()
    } else if media.last().preferred == preferred {
        media_urls(media.drop_last(), preferred).push(media.last().direct_url@)
    } else {
        media_urls(media.drop_last(), preferred)
    }
}

/// The pairs of match and team that the matches serve, in their order: in
/// each match the blue alliance first.
pub open spec fn served_by(raws: Seq<RawMatchData>) -> Seq<(u32, u32)>
    decreases raws.len(),
{
    if raws.len() == 0 {
        Seq::empty()
    } else {
        served_by(raws.drop_last()) + pairs(
            raws.last().match_number,
            alliance_numbers(raws.last().alliances.blue),
        ) + pairs(raws.last().match_number, alliance_numbers(raws.last().alliances.red))
    }
}

/// Whether `full` is the match `raw` as `team` played it, with the records
/// handed out after those in `served`.
pub open spec fn shows_match(
    full: FullMatchInfo,
    records: Seq<MatchInfoView>,
    served: Seq<(u32, u32)>,
    raw: RawMatchData,
    team: u32,
) -> bool {
    let blue = alliance_numbers(raw.alliances.blue);
    let red = alliance_numbers(raw.alliances.red);
    &&& full.time == match_time(raw)
    &&& full.alliance == colour_of(raw, team)
    &&& line_up_views(full.blue_teams@) == line_up(records, served, raw.match_number, blue)
    &&& line_up_views(full.red_teams@) == line_up(
        records,
        served + pairs(raw.match_number, blue),
        raw.match_number,
        red,
    )
    &&& full.blue_score == raw.alliances.blue.score
    &&& full.red_score == raw.alliances.red.score
}

/// The position at which a visit of this number goes into `sorted`.
fn position_after(sorted: &Vec<RobotInfo>, number: u32) -> (at: usize)
    ensures
        at == first_after(robot_views(sorted@), number),
        at <= sorted.len(),
{
    let ghost views = robot_views(sorted@);
    let mut i: usize = 0;
    assert(views.skip(0) =~= views);
    while i < sorted.len()
        invariant
            i <= sorted.len(),
            views == robot_views(sorted@),
            first_after(views, number) == i + first_after(views.skip(i as int), number),
        decreases sorted.len() - i,
    {
        assert(views.skip(i as int).first() == sorted@[i as int]@);
        assert(views.skip(i as int).drop_first() =~= views.skip(i + 1));
        if sorted[i].visit_number > number {
            return i;
        }
        i += 1;
    }
    assert(views.skip(i as int).len() == 0);
    i
}

/// The pit visits of a team by rising visit number.
pub fn team_visits_of(visits: &Vec<RobotInfo>, team: u32) -> (sorted: Vec<RobotInfo>)
    ensures
        robot_views(sorted@) == team_visits(robot_views(visits@), team),
{
    let mut sorted: Vec<RobotInfo> = Vec::new();
    let mut i: usize = 0;
    assert(robot_views(sorted@) =~= team_visits(robot_views(visits@).take(0), team));
    while i < visits.len()
        invariant
            i <= visits.len(),
            robot_views(sorted@) == team_visits(robot_views(visits@).take(i as int), team),
        decreases visits.len() - i,
    {
        assert(robot_views(visits@).take(i + 1).drop_last() =~= robot_views(visits@).take(i as int));
        if visits[i].team_number == team {
            let ghost before = sorted@;
            let copy = visits[i].clone();
            let at = position_after(&sorted, copy.visit_number);
            let ghost view = copy@;
            sorted.insert(at, copy);
            assert(robot_views(sorted@) =~= robot_views(before).insert(at as int, view));
        }
        i += 1;
    }
    assert(robot_views(visits@).take(i as int) =~= robot_views(visits@));
    sorted
}

/// Adds copies of the texts in `more` to `out`.
fn add_texts(out: &mut Vec<String>, more: &Vec<String>)
    ensures
        texts(final(out)@) == texts(old(out)@) + texts(more@),
{
    let ghost before = texts(out@);
    let mut i: usize = 0;
    assert(before + texts(more@).take(0) =~= before);
    while i < more.len()
        invariant
            i <= more.len(),
            texts(out@) == before + texts(more@).take(i as int),
        decreases more.len() - i,
    {
        let ghost had = out@;
        out.push(more[i].clone());
        assert(texts(out@) =~= texts(had).push(more@[i as int]@));
        assert(texts(more@).take(i + 1) =~= texts(more@).take(i as int).push(more@[i as int]@));
        assert(before + texts(more@).take(i as int).push(more@[i as int]@) =~= (before + texts(
            more@,
        ).take(i as int)).push(more@[i as int]@));
        i += 1;
    }
    assert(texts(more@).take(i as int) =~= texts(more@));
}

/// Adds to `out` the addresses of the pictures that are preferred, or of
/// those that are not.
fn add_media(out: &mut Vec<String>, media: &Vec<RawMediaInfo>, preferred: bool)
    ensures
        texts(final(out)@) == texts(old(out)@) + media_urls(media@, preferred),
{
    let ghost before = texts(out@);
    let mut i: usize = 0;
    assert(before + media_urls(media@.take(0), preferred) =~= before);
    while i < media.len()
        invariant
            i <= media.len(),
            texts(out@) == before + media_urls(media@.take(i as int), preferred),
        decreases media.len() - i,
    {
        assert(media@.take(i + 1).drop_last() =~= media@.take(i as int));
        if media[i].preferred == preferred {
            let ghost had = out@;
            let ghost done = media_urls(media@.take(i as int), preferred);
            out.push(media[i].direct_url.clone());
            assert(texts(out@) =~= texts(had).push(media@[i as int].direct_url@));
            assert(before + done.push(media@[i as int].direct_url@) =~= (before + done).push(
                media@[i as int].direct_url@,
            ));
        }
        i += 1;
    }
    assert(media@.take(i as int) =~= media@);
}

/// Whether `info` is what is known of a team: its pit visits by rising visit
/// number; the pictures of those visits, then the pictures in the feed, the
/// preferred ones first; and each of its matches in the feed, with the
/// scouted records of all the teams in it. A scouted record is handed out
/// once.
pub open spec fn shows_team(
    info: FullTeamInfo,
    records: Seq<MatchInfoView>,
    visits: Seq<RobotInfoView>,
    team_number: u32,
    media: Seq<RawMediaInfo>,
    fetched: Seq<RawMatchData>,
) -> bool {
    &&& info.team_number == team_number
    &&& robot_views(info.pit_visits@) == team_visits(visits, team_number)
    &&& texts(info.images@) == all_images(team_visits(visits, team_number)) + media_urls(
        media,
        true,
    ) + media_urls(media, false)
    &&& info.matches@.len() == fetched.len()
    &&& forall|i: int|
        0 <= i < fetched.len() ==> shows_match(
            #[trigger] info.matches@[i],
            records,
            served_by(fetched.take(i)),
            fetched[i],
            team_number,
        )
}

/// What is known of one team, from the records of a snapshot and what the
/// feed sent of the team: its pictures and its matches.
pub fn team_page(
    records: &Vec<MatchInfo>,
    visits: &Vec<RobotInfo>,
    team_number: u32,
    media: &Vec<RawMediaInfo>,
    fetched: &Vec<RawMatchData>,
) -> (info: FullTeamInfo)
    ensures
        shows_team(
            info,
            match_views(records@),
            robot_views(visits@),
            team_number,
            media@,
            fetched@,
        ),
{
    let pit_visits = team_visits_of(visits, team_number);
    let ghost sorted = robot_views(pit_visits@);
    let mut images: Vec<String> = Vec::new();
    let mut v: usize = 0;
    assert(sorted.take(0) =~= Seq::empty());
    assert(texts(images@) =~= Seq::empty());
    while v < pit_visits.len()
        invariant
            v <= pit_visits.len(),
            sorted == robot_views(pit_visits@),
            texts(images@) == all_images(sorted.take(v as int)),
        decreases pit_visits.len() - v,
    {
        assert(sorted.take(v + 1).drop_last() =~= sorted.take(v as int));
        assert(sorted.take(v + 1).last() == pit_visits@[v as int]@);
        add_texts(&mut images, &pit_visits[v].images);
        v += 1;
    }
    assert(sorted.take(v as int) =~= sorted);
    add_media(&mut images, media, true);
    add_media(&mut images, media, false);
    let mut served: Vec<(u32, u32)> = Vec::new();
    let mut matches: Vec<FullMatchInfo> = Vec::new();
    let mut i: usize = 0;
    assert(fetched@.take(0) =~= Seq::empty());
    while i < fetched.len()
        invariant
            i <= fetched.len(),
            matches@.len() == i,
            served@ == served_by(fetched@.take(i as int)),
            forall|j: int|
                0 <= j < i ==> shows_match(
                    #[trigger] matches@[j],
                    match_views(records@),
                    served_by(fetched@.take(j)),
                    fetched@[j],
                    team_number,
                ),
        decreases fetched.len() - i,
    {
        let raw = &fetched[i];
        let ghost before = served@;
        let blue = alliance_numbers_of(&raw.alliances.blue);
        let red = alliance_numbers_of(&raw.alliances.red);
        let blue_teams = line_up_of(records, &mut served, raw.match_number, &blue);
        let red_teams = line_up_of(records, &mut served, raw.match_number, &red);
        let full = FullMatchInfo {
            time: match_time_of(raw),
            alliance: colour_of_team(raw, team_number),
            blue_teams,
            red_teams,
            blue_score: raw.alliances.blue.score,
            red_score: raw.alliances.red.score,
        };
        let ghost earlier = matches@;
        matches.push(full);
        proof {
            assert(fetched@.take(i + 1).drop_last() =~= fetched@.take(i as int));
            assert(fetched@.take(i + 1).last() == fetched@[i as int]);
            assert forall|j: int| 0 <= j < i + 1 implies shows_match(
                #[trigger] matches@[j],
                match_views(records@),
                served_by(fetched@.take(j)),
                fetched@[j],
                team_number,
            ) by {
                if j < i {
                    assert(matches@[j] == earlier[j]);
                }
            }
        }
        i += 1;
    }
    FullTeamInfo { team_number, matches, images, pit_visits }
}

/// What is known of one team, from what a store holds and what the feed sent
/// of the team. Fails where the backend fails.
pub fn get_team_info(
    database: &Database,
    team_number: u32,
    media: &Vec<RawMediaInfo>,
    fetched: &Vec<RawMatchData>,
) -> (res: Result<FullTeamInfo, DatabaseError>)
    ensures
        res matches Ok(info) ==> shows_team(
            info,
            present(match_listing(database@)),
            present(robot_listing(database@)),
            team_number,
            media@,
            fetched@,
        ),
        res matches Err(e) ==> e is Sled,
{
    match database.snapshot() {
        Ok(snapshot) => Ok(
            team_page(&snapshot.matches, &snapshot.robots, team_number, media, fetched),
        ),
        Err(e) => Err(e),
    }
}

} // verus!
