//! The export of match records as comma-separated lines.

use crate::data::{match_views, texts, MatchInfo, MatchInfoView};
use crate::text::{append_decimal, decimal_text};
use vstd::prelude::*;
use vstd::string::StringExecFns;

verus! {

/// `true` or `false`.
pub open spec fn bool_text(b: bool) -> Seq<char> {
    if b {
        "true"@
    } else {
        "false"@
    }
}

/// The digits after the point of a number of thousandths, without zeros at
/// the end, and with the point; nothing for a whole number.
pub open spec fn fraction_text(f: nat) -> Seq<char> {
    if f == 0 {
        Seq::empty()
    } else if f % 100 == 0 {
        "."@ + decimal_text(f / 100)
    } else if f % 10 == 0 {
        "."@ + decimal_text(f / 100) + decimal_text((f / 10) % 10)
    } else {
        "."@ + decimal_text(f / 100) + decimal_text((f / 10) % 10) + decimal_text(f % 10)
    }
}

/// A number of thousandths as a decimal number: `2500` is `2.5`.
pub open spec fn fixed_text(v: nat) -> Seq<char> {
    decimal_text(v / 1000) + fraction_text(v % 1000)
}

/// A rating, or `N/A` where there is none.
pub open spec fn rating_text(v: Option<u32>) -> Seq<char> {
    match v {
        Some(n) => fixed_text(n as nat),
        None => "N/A"@,
    }
}

/// `text` with two spaces in the place of every line break.
pub open spec fn on_one_line(text: Seq<char>) -> Seq<char>
    decreases text.len(),
{
    if text.len() == 0 {
        Seq::empty()
    } else if text.last() == '\n' {
        on_one_line(text.drop_last()) + "  "@
    } else {
        on_one_line(text.drop_last()).push(text.last())
    }
}

/// `text` on one line between double quotes.
pub open spec fn quoted(text: Seq<char>) -> Seq<char> {
    "\""@ + on_one_line(text) + "\""@
}

/// The texts joined by commas.
pub open spec fn joined(fields: Seq<Seq<char>>) -> Seq<char>
    decreases fields.len(),
{
    if fields.len() == 0 {
        Seq::empty()
    } else if fields.len() == 1 {
        fields[0]
    } else {
        joined(fields.drop_last()) + ","@ + fields.last()
    }
}

/// The values of a match record in the order of the export.
pub open spec fn csv_fields(r: MatchInfoView) -> Seq<Seq<char>> {
    seq![
        decimal_text(r.match_number as nat),
        r.match_category.spec_name(),
        decimal_text(r.team_number as nat),
        bool_text(r.auto.exited_tarmac),
        r.auto.auto_charge_station.spec_name(),
        decimal_text(r.auto.hybrid_cube_scored as nat),
        decimal_text(r.auto.hybrid_cone_scored as nat),
        decimal_text(r.auto.middle_cube_scored as nat),
        decimal_text(r.auto.middle_cone_scored as nat),
        decimal_text(r.auto.high_cube_scored as nat),
        decimal_text(r.auto.high_cone_scored as nat),
        decimal_text(r.teleop.hybrid_cube_scored as nat),
        decimal_text(r.teleop.hybrid_cone_scored as nat),
        decimal_text(r.teleop.middle_cube_scored as nat),
        decimal_text(r.teleop.middle_cone_scored as nat),
        decimal_text(r.teleop.high_cube_scored as nat),
        decimal_text(r.teleop.high_cone_scored as nat),
        bool_text(r.teleop.parked),
        r.teleop.teleop_charge_station.spec_name(),
        fixed_text(r.speed as nat),
        fixed_text(r.stability as nat),
        rating_text(r.defence),
        bool_text(r.is_primary_defence),
        bool_text(r.was_disabled),
        quoted(r.notes),
    ]
}

/// The line that exports a match record.
pub open spec fn csv_line(r: MatchInfoView) -> Seq<char> {
    joined(csv_fields(r)) + "\n"@
}

/// A number in decimal digits.
fn number_text(n: u32) -> (text: String)
    ensures
        text@ == decimal_text(n as nat),
{
    let mut text = String::new();
    append_decimal(&mut text, n as u64);
    assert(text@ =~= decimal_text(n as nat));
    text
}

/// `true` or `false`.
fn bool_text_of(b: bool) -> (text: String)
    ensures
        text@ == bool_text(b),
{
    if b {
        "true".to_owned()
    } else {
        "false".to_owned()
    }
}

/// A number of thousandths as a decimal number.
fn fixed_text_of(v: u32) -> (text: String)
    ensures
        text@ == fixed_text(v as nat),
{
    let mut text = String::new();
    append_decimal(&mut text, (v / 1000) as u64);
    let f: u64 = (v % 1000) as u64;
    if f != 0 {
        text.append(".");
        append_decimal(&mut text, f / 100);
        if f % 100 != 0 {
            append_decimal(&mut text, (f / 10) % 10);
            if f % 10 != 0 {
                append_decimal(&mut text, f % 10);
            }
        }
    }
    assert(text@ =~= fixed_text(v as nat));
    text
}

/// A rating, or `N/A` where there is none.
fn rating_text_of(v: Option<u32>) -> (text: String)
    ensures
        text@ == rating_text(v),
{
    match v {
        Some(n) => fixed_text_of(n),
        None => "N/A".to_owned(),
    }
}

/// A text on one line between double quotes.
fn quoted_of(notes: &str) -> (text: String)
    ensures
        text@ == quoted(notes@),
{
    let n = notes.unicode_len();
    let mut text = String::new();
    text.append("\"");
    let mut i: usize = 0;
    assert(notes@.take(0) =~= Seq::empty());
    assert(text@ =~= "\""@ + on_one_line(notes@.take(0)));
    while i < n
        invariant
            i <= n,
            n == notes@.len(),
            text@ == "\""@ + on_one_line(notes@.take(i as int)),
        decreases n - i,
    {
        assert(notes@.take(i + 1).drop_last() =~= notes@.take(i as int));
        assert(notes@.take(i + 1).last() == notes@[i as int]);
        let ghost done = on_one_line(notes@.take(i as int));
        if notes.get_char(i) == '\n' {
            text.append("  ");
            assert(text@ =~= "\""@ + (done + "  "@));
        } else {
            let one = notes.substring_char(i, i + 1);
            assert(one@ =~= seq![notes@[i as int]]);
            text.append(one);
            assert(text@ =~= "\""@ + done.push(notes@[i as int]));
        }
        i += 1;
    }
    assert(notes@.take(n as int) =~= notes@);
    text.append("\"");
    text
}

/// The texts joined by commas.
fn join_fields(fields: &Vec<String>) -> (line: String)
    ensures
        line@ == joined(texts(fields@)),
{
    let ghost all = texts(fields@);
    let mut line = String::new();
    let mut i: usize = 0;
    assert(all.take(0) =~= Seq::empty());
    while i < fields.len()
        invariant
            i <= fields.len(),
            all == texts(fields@),
            line@ == joined(all.take(i as int)),
        decreases fields.len() - i,
    {
        assert(all.take(i + 1).drop_last() =~= all.take(i as int));
        assert(all.take(i + 1).last() == fields@[i as int]@);
        if i > 0 {
            line.append(",");
        } else {
            assert(all.take(1)[0] == fields@[0]@);
            assert(line@ + fields@[0]@ =~= fields@[0]@);
        }
        line.append(fields[i].as_str());
        i += 1;
    }
    assert(all.take(i as int) =~= all);
    line
}

impl MatchInfo {
    /// The first line of an export: the names of the columns.
    pub const HEADER: &'static str =
        "match_number,match_category,team,auto_exited_tarmac,auto_charge_station,auto_hybrid_cube_scored,auto_hybrid_cone_scored,auto_middle_cube_scored,auto_middle_cone_scored,auto_high_cube_scored,auto_high_cone_scored,teleop_hybrid_cube_scored,teleop_hybrid_cone_scored,teleop_middle_cube_scored,teleop_middle_cone_scored,teleop_high_cube_scored,teleop_high_cone_scored,speed,stability,defence,is_primary_defence,was_broken,was_disabled,notes\n";

    /// The line that exports this record: its values joined by commas, the
    /// notes on one line between double quotes, and a line break.
    pub fn write_csv_line(&self) -> (line: String)
        ensures
            line@ == csv_line(self@),
    {
        let mut fields: Vec<String> = Vec::new();
        fields.push(number_text(self.match_number));
        fields.push(self.match_category.name().to_owned());
        fields.push(number_text(self.team_number));
        fields.push(bool_text_of(self.auto.exited_tarmac));
        fields.push(self.auto.auto_charge_station.name().to_owned());
        fields.push(number_text(self.auto.hybrid_cube_scored));
        fields.push(number_text(self.auto.hybrid_cone_scored));
        fields.push(number_text(self.auto.middle_cube_scored));
        fields.push(number_text(self.auto.middle_cone_scored));
        fields.push(number_text(self.auto.high_cube_scored));
        fields.push(number_text(self.auto.high_cone_scored));
        fields.push(number_text(self.teleop.hybrid_cube_scored));
        fields.push(number_text(self.teleop.hybrid_cone_scored));
        fields.push(number_text(self.teleop.middle_cube_scored));
        fields.push(number_text(self.teleop.middle_cone_scored));
        fields.push(number_text(self.teleop.high_cube_scored));
        fields.push(number_text(self.teleop.high_cone_scored));
        fields.push(bool_text_of(self.teleop.parked));
        fields.push(self.teleop.teleop_charge_station.name().to_owned());
        fields.push(fixed_text_of(self.speed));
        fields.push(fixed_text_of(self.stability));
        fields.push(rating_text_of(self.defence));
        fields.push(bool_text_of(self.is_primary_defence));
        fields.push(bool_text_of(self.was_disabled));
        fields.push(quoted_of(self.notes.as_str()));
        assert(texts(fields@) =~= csv_fields(self@));
        let mut line = join_fields(&fields);
        line.append("\n");
        line
    }
}

/// The lines that export the records, one after the other.
pub open spec fn csv_lines(records: Seq<MatchInfoView>) -> Seq<char>
    decreases records.len(),
{
    if records.len() == 0 {
        Seq::empty()
    } else {
        csv_lines(records.drop_last()) + csv_line(records.last())
    }
}

/// The export of the records: the names of the columns, then one line for
/// each record.
pub fn get_csv(records: &Vec<MatchInfo>) -> (csv: String)
    ensures
        csv@ == MatchInfo::HEADER@ + csv_lines(match_views(records@)),
{
    let mut csv = MatchInfo::HEADER.to_owned();
    let mut i: usize = 0;
    assert(match_views(records@).take(0) =~= Seq::empty());
    assert(csv@ =~= MatchInfo::HEADER@ + csv_lines(match_views(records@).take(0)));
    while i < records.len()
        invariant
            i <= records.len(),
            csv@ == MatchInfo::HEADER@ + csv_lines(match_views(records@).take(i as int)),
        decreases records.len() - i,
    {
        assert(match_views(records@).take(i + 1).drop_last() =~= match_views(records@).take(i as int));
        let line = records[i].write_csv_line();
        let ghost done = csv_lines(match_views(records@).take(i as int));
        csv.append(line.as_str());
        assert(csv@ =~= MatchInfo::HEADER@ + (done + line@));
        i += 1;
    }
    assert(match_views(records@).take(i as int) =~= match_views(records@));
    csv
}

} // verus!
