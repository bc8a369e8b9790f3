//! The order of the list of summaries: by falling score.

use crate::analysis::{row_views, TeamInfo, TeamInfoView};
use vstd::prelude::*;

verus! {

/// The first position in `rows` whose score is not above `s`; the length of
/// `rows` where every score is above it.
pub open spec fn first_not_above(rows: Seq<TeamInfoView>, s: int) -> int
    decreases rows.len(),
{
    if rows.len() == 0 {
        0
    } else if rows.first().score() <= s {
        0
    } else {
        1 + first_not_above(rows.drop_first(), s)
    }
}

/// `ranked` with `row` put in before the first summary whose score is not
/// above its own.
pub open spec fn place(ranked: Seq<TeamInfoView>, row: TeamInfoView) -> Seq<TeamInfoView> {
    ranked.insert(first_not_above(ranked, row.score()), row)
}

/// The summaries by falling score. Summaries of the same score keep the order
/// they came in.
pub open spec fn ranked(rows: Seq<TeamInfoView>) -> Seq<TeamInfoView>
    decreases rows.len(),
{
    if rows.len() == 0 {
        Seq::empty()
    } else {
        place(ranked(rows.drop_first()), rows.first())
    }
}

/// The position that `first_not_above` gives is within the list, every score
/// before it is above `s`, and the score at it is not.
pub proof fn lemma_first_not_above(rows: Seq<TeamInfoView>, s: int)
    ensures
        0 <= first_not_above(rows, s) <= rows.len(),
        forall|i: int| 0 <= i < first_not_above(rows, s) ==> (#[trigger] rows[i]).score() > s,
        first_not_above(rows, s) < rows.len() ==> rows[first_not_above(rows, s)].score() <= s,
    decreases rows.len(),
{
    if rows.len() > 0 && rows.first().score() > s {
        let rest = rows.drop_first();
        lemma_first_not_above(rest, s);
        assert forall|i: int| 0 <= i < first_not_above(rows, s) implies (#[trigger] rows[i]).score()
            > s by {
            if i > 0 {
                assert(rows[i] == rest[i - 1]);
            }
        }
        assert(first_not_above(rows, s) < rows.len() ==> rows[first_not_above(rows, s)] == rest[first_not_above(
            rest,
            s,
        )]);
    }
}

/// The position at which a summary of score `s` goes into `rows`.
fn position_for(rows: &Vec<TeamInfo>, s: i128) -> (at: usize)
    requires
        forall|k: int| 0 <= k < rows.len() ==> (#[trigger] rows@[k])@.within_bounds(),
    ensures
        at == first_not_above(row_views(rows@), s as int),
        at <= rows.len(),
{
    let ghost views = row_views(rows@);
    let mut i: usize = 0;
    assert(views.skip(0) =~= views);
    while i < rows.len()
        invariant
            i <= rows.len(),
            views == row_views(rows@),
            forall|k: int| 0 <= k < rows.len() ==> (#[trigger] rows@[k])@.within_bounds(),
            first_not_above(views, s as int) == i + first_not_above(views.skip(i as int), s as int),
        decreases rows.len() - i,
    {
        assert(views.skip(i as int).first() == rows@[i as int]@);
        assert(views.skip(i as int).drop_first() =~= views.skip(i + 1));
        if rows[i].combined_score() <= s {
            return i;
        }
        i += 1;
    }
    assert(views.skip(i as int).len() == 0);
    i
}

/// The summaries by falling score.
pub(crate) fn rank(rows: Vec<TeamInfo>) -> (list: Vec<TeamInfo>)
    requires
        forall|k: int| 0 <= k < rows.len() ==> (#[trigger] rows@[k])@.within_bounds(),
    ensures
        row_views(list@) == ranked(row_views(rows@)),
{
    let ghost views = row_views(rows@);
    let mut rest = rows;
    let mut list: Vec<TeamInfo> = Vec::new();
    assert(views.skip(views.len() as int) =~= Seq::empty());
    assert(row_views(list@) =~= Seq::empty());
    while rest.len() > 0
        invariant
            rest@.len() <= views.len(),
            row_views(rest@) == views.take(rest@.len() as int),
            row_views(list@) == ranked(views.skip(rest@.len() as int)),
            forall|k: int| 0 <= k < rest.len() ==> (#[trigger] rest@[k])@.within_bounds(),
            forall|k: int| 0 <= k < list.len() ==> (#[trigger] list@[k])@.within_bounds(),
        decreases rest.len(),
    {
        let ghost before = rest@;
        let ghost ranked_before = list@;
        let n = rest.len();
        let row = match rest.pop() {
            Some(row) => row,
            None => TeamInfo::new(0),
        };
        proof {
            assert(row == before[n - 1]);
            assert(row.view() == row_views(before)[n - 1]);
            assert(row.view() == views[n - 1]);
            assert(views.skip(n - 1).first() == views[n - 1]);
            assert(views.skip(n - 1).drop_first() =~= views.skip(n as int));
            assert(row_views(rest@) =~= views.take(rest@.len() as int)) by {
                assert forall|k: int| 0 <= k < rest@.len() implies row_views(rest@)[k] == views.take(
                    rest@.len() as int,
                )[k] by {
                    assert(rest@[k] == before[k]);
                    assert(row_views(before)[k] == before[k]@);
                }
            }
        }
        let s = row.combined_score();
        let at = position_for(&list, s);
        let ghost row_view = row@;
        list.insert(at, row);
        proof {
            assert(row_views(list@) =~= row_views(ranked_before).insert(at as int, row_view));
        }
    }
    assert(views.skip(0) =~= views);
    list
}

/// Whether no summary has a lower score than one that comes after it.
pub open spec fn descending(rows: Seq<TeamInfoView>) -> bool {
    forall|i: int, j: int| 0 <= i <= j < rows.len() ==> rows[i].score() >= rows[j].score()
}

/// Putting a summary into a descending list leaves the list descending, one
/// longer, and with the same summaries and the new one.
pub proof fn lemma_place(list: Seq<TeamInfoView>, row: TeamInfoView)
    requires
        descending(list),
    ensures
        descending(place(list, row)),
        place(list, row).len() == list.len() + 1,
        place(list, row).to_multiset() == list.to_multiset().insert(row),
{
    let at = first_not_above(list, row.score());
    lemma_first_not_above(list, row.score());
    let out = place(list, row);
    assert forall|i: int, j: int| 0 <= i <= j < out.len() implies out[i].score() >= out[j].score() by {
        if i < at {
            assert(out[i] == list[i]);
            if j < at {
                assert(out[j] == list[j]);
            } else if j == at {
            } else {
                assert(out[j] == list[j - 1]);
                assert(list[at].score() >= list[j - 1].score());
            }
        } else if i == at {
            if j > at {
                assert(out[j] == list[j - 1]);
                assert(list[at].score() >= list[j - 1].score());
            }
        } else {
            assert(out[i] == list[i - 1]);
            assert(out[j] == list[j - 1]);
        }
    }
    assert(out.remove(at) =~= list);
    broadcast use vstd::seq_lib::group_to_multiset_ensures;
    assert(out.remove(at).to_multiset() =~= out.to_multiset().remove(out[at]));
    assert(out.to_multiset().count(row) > 0) by {
        assert(out[at] == row);
        assert(out.contains(row));
    }
    assert(out.to_multiset() =~= list.to_multiset().insert(row));
}

/// A ranked list is descending, as long as the list it was made from, and
/// holds the same summaries, each as often.
pub proof fn lemma_ranked(rows: Seq<TeamInfoView>)
    ensures
        descending(ranked(rows)),
        ranked(rows).len() == rows.len(),
        ranked(rows).to_multiset() == rows.to_multiset(),
    decreases rows.len(),
{
    if rows.len() > 0 {
        let rest = rows.drop_first();
        lemma_ranked(rest);
        lemma_place(ranked(rest), rows.first());
        broadcast use vstd::seq_lib::group_to_multiset_ensures;
        assert(rows =~= seq![rows.first()] + rest);
        assert(rows.remove(0) =~= rest);
        assert(rows.remove(0).to_multiset() =~= rows.to_multiset().remove(rows[0]));
        assert(rows.contains(rows[0]));
        assert(rows.to_multiset() =~= rest.to_multiset().insert(rows.first()));
    } else {
        assert(ranked(rows) =~= rows);
    }
}

/// Ranking a list that is descending already returns it as it is: summaries
/// of the same score keep their order.
pub proof fn lemma_ranked_keeps_descending(rows: Seq<TeamInfoView>)
    requires
        descending(rows),
    ensures
        ranked(rows) == rows,
    decreases rows.len(),
{
    if rows.len() > 0 {
        let rest = rows.drop_first();
        assert forall|i: int, j: int| 0 <= i <= j < rest.len() implies rest[i].score()
            >= rest[j].score() by {
            assert(rest[i] == rows[i + 1] && rest[j] == rows[j + 1]);
        }
        lemma_ranked_keeps_descending(rest);
        if rest.len() > 0 {
            assert(rest.first() == rows[1]);
            assert(rows[0].score() >= rows[1].score());
        }
        assert(first_not_above(rest, rows.first().score()) == 0);
        assert(rest.insert(0, rows.first()) =~= rows);
    } else {
        assert(ranked(rows) =~= rows);
    }
}

} // verus!
