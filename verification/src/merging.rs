//! What holds of puts and merges, whatever the store holds and whatever is
//! put.

use crate::data::{InfoView, MatchInfoView, RobotInfoView};
use crate::database::{
    as_infos, empty_store, list_matches, list_robots, match_listing, match_valid, merge, present,
    put_info, robot_listing, robot_valid, DatabaseView, COMP_START,
};
use crate::keys::{
    lemma_match_key_injective, lemma_robot_key_injective, lists_keys, match_key_of, robot_key_of,
    sorted_keys,
};
use vstd::prelude::*;

verus! {

/// Whether a record of either kind may enter the store.
pub open spec fn info_valid(info: InfoView) -> bool {
    match info {
        InfoView::MatchInfo(r) => match_valid(r),
        InfoView::RobotInfo(r) => robot_valid(r),
    }
}

/// When a record of either kind was last modified.
pub open spec fn info_time(info: InfoView) -> u64 {
    match info {
        InfoView::MatchInfo(r) => r.last_modified_time,
        InfoView::RobotInfo(r) => r.last_modified_time,
    }
}

/// Whether two records are of one kind and share their natural key.
pub open spec fn same_place(a: InfoView, b: InfoView) -> bool {
    match (a, b) {
        (InfoView::MatchInfo(x), InfoView::MatchInfo(y)) => x.match_category == y.match_category
            && x.match_number == y.match_number && x.team_number == y.team_number,
        (InfoView::RobotInfo(x), InfoView::RobotInfo(y)) => x.team_number == y.team_number
            && x.visit_number == y.visit_number,
        _ => false,
    }
}

/// The record that the store holds in the place of `info`, if it holds one.
pub open spec fn held(store: DatabaseView, info: InfoView) -> Option<InfoView> {
    match info {
        InfoView::MatchInfo(r) => {
            let key = match_key_of(r);
            if store.matches.contains_key(key) && store.matches[key] is Some {
                Some(InfoView::MatchInfo(store.matches[key].unwrap()))
            } else {
                None
            }
        },
        InfoView::RobotInfo(r) => {
            let key = robot_key_of(r);
            if store.robots.contains_key(key) && store.robots[key] is Some {
                Some(InfoView::RobotInfo(store.robots[key].unwrap()))
            } else {
                None
            }
        },
    }
}

/// Whether putting `info` changes nothing: it is not valid, or the store
/// holds in its place a record modified no earlier.
pub open spec fn settled(store: DatabaseView, info: InfoView) -> bool {
    !info_valid(info) || (held(store, info) matches Some(h) && info_time(h) >= info_time(info))
}

/// Putting a record that is settled changes nothing, and putting any other
/// record leaves that record in its place.
pub proof fn lemma_put_info(store: DatabaseView, info: InfoView)
    ensures
        settled(store, info) ==> put_info(store, info) == store,
        !settled(store, info) ==> held(put_info(store, info), info) == Some(info),
        settled(put_info(store, info), info),
{
}

/// A record last modified at or before the start of the event never enters
/// the store: putting it changes nothing.
pub proof fn lemma_stale_record_changes_nothing(store: DatabaseView, info: InfoView)
    requires
        info_time(info) <= COMP_START,
    ensures
        put_info(store, info) == store,
{
}

/// A walk over the store yields no record that is not valid: none last
/// modified at or before the start of the event, whatever the backend held
/// when it was opened.
pub proof fn lemma_listing_only_valid(store: DatabaseView)
    ensures
        forall|i: int|
            0 <= i < match_listing(store).len() ==> ((#[trigger] match_listing(store)[i]) matches Some(
                r,
            ) ==> match_valid(r) && r.last_modified_time > COMP_START),
        forall|i: int|
            0 <= i < robot_listing(store).len() ==> ((#[trigger] robot_listing(store)[i]) matches Some(
                r,
            ) ==> robot_valid(r) && r.last_modified_time > COMP_START),
{
    lemma_list_matches_only_valid(store.matches, sorted_keys(store.matches.dom()));
    lemma_list_robots_only_valid(store.robots, sorted_keys(store.robots.dom()));
}

/// A walk over match records yields valid records only.
proof fn lemma_list_matches_only_valid(
    matches: Map<Seq<u8>, Option<MatchInfoView>>,
    order: Seq<Seq<u8>>,
)
    ensures
        forall|i: int|
            0 <= i < list_matches(matches, order).len() ==> ((#[trigger] list_matches(
                matches,
                order,
            )[i]) matches Some(r) ==> match_valid(r)),
    decreases order.len(),
{
    if order.len() > 0 {
        lemma_list_matches_only_valid(matches, order.drop_last());
    }
}

/// A walk over pit visits yields valid visits only.
proof fn lemma_list_robots_only_valid(robots: Map<Seq<u8>, Option<RobotInfoView>>, order: Seq<Seq<u8>>)
    ensures
        forall|i: int|
            0 <= i < list_robots(robots, order).len() ==> ((#[trigger] list_robots(
                robots,
                order,
            )[i]) matches Some(r) ==> robot_valid(r)),
    decreases order.len(),
{
    if order.len() > 0 {
        lemma_list_robots_only_valid(robots, order.drop_last());
    }
}

/// A record that is settled stays settled whatever is put afterwards: a put
/// replaces a record only by one modified later.
pub proof fn lemma_settled_stays(store: DatabaseView, info: InfoView, other: InfoView)
    requires
        settled(store, info),
    ensures
        settled(put_info(store, other), info),
{
}

/// After a batch is merged, every record of the batch is settled.
pub proof fn lemma_merge_settles(store: DatabaseView, infos: Seq<InfoView>)
    ensures
        forall|i: int| 0 <= i < infos.len() ==> settled(merge(store, infos), #[trigger] infos[i]),
    decreases infos.len(),
{
    if infos.len() > 0 {
        let before = infos.drop_last();
        lemma_merge_settles(store, before);
        let mid = merge(store, before);
        assert forall|i: int| 0 <= i < infos.len() implies settled(
            merge(store, infos),
            #[trigger] infos[i],
        ) by {
            if i < before.len() {
                assert(before[i] == infos[i]);
                lemma_settled_stays(mid, infos[i], infos.last());
            } else {
                lemma_put_info(mid, infos.last());
            }
        }
    }
}

/// Merging a batch of settled records changes nothing.
pub proof fn lemma_merge_of_settled(store: DatabaseView, infos: Seq<InfoView>)
    requires
        forall|i: int| 0 <= i < infos.len() ==> settled(store, #[trigger] infos[i]),
    ensures
        merge(store, infos) == store,
    decreases infos.len(),
{
    if infos.len() > 0 {
        let before = infos.drop_last();
        assert(forall|i: int| 0 <= i < before.len() ==> before[i] == infos[i]);
        lemma_merge_of_settled(store, before);
        assert(infos.last() == infos[infos.len() - 1]);
        lemma_put_info(store, infos.last());
    }
}

/// Merging a batch a second time changes nothing: the store holds the same,
/// and a walk over it yields the same.
pub proof fn lemma_merge_twice(store: DatabaseView, infos: Seq<InfoView>)
    ensures
        merge(merge(store, infos), infos) == merge(store, infos),
        match_listing(merge(merge(store, infos), infos)) == match_listing(merge(store, infos)),
        robot_listing(merge(merge(store, infos), infos)) == robot_listing(merge(store, infos)),
{
    lemma_merge_settles(store, infos);
    lemma_merge_of_settled(merge(store, infos), infos);
}

/// Of two valid records that share a natural key, the one modified later
/// wins, in whichever order they are put: both orders leave the same store,
/// and it holds in that place a record modified no earlier than the later of
/// the two, which is that record itself unless the store held one modified
/// no earlier before.
pub proof fn lemma_last_write_wins(store: DatabaseView, a: InfoView, b: InfoView)
    requires
        info_valid(a),
        info_valid(b),
        same_place(a, b),
        info_time(a) < info_time(b),
    ensures
        put_info(put_info(store, a), b) == put_info(put_info(store, b), a),
        held(put_info(put_info(store, a), b), b) matches Some(h) && info_time(h) >= info_time(b),
        !settled(store, b) ==> held(put_info(put_info(store, a), b), b) == Some(b),
{
    let one = put_info(put_info(store, a), b);
    let other = put_info(put_info(store, b), a);
    assert(one.matches =~= other.matches);
    assert(one.robots =~= other.robots);
}

/// Whether two records of one place and one time differ: the one case in
/// which the order of two puts decides which of them is kept.
pub open spec fn ties(a: InfoView, b: InfoView) -> bool {
    same_place(a, b) && info_time(a) == info_time(b) && a != b
}

/// Two puts leave the same store in either order, unless the two records
/// tie.
pub proof fn lemma_puts_commute(store: DatabaseView, a: InfoView, b: InfoView)
    requires
        !(info_valid(a) && info_valid(b) && ties(a, b)),
    ensures
        put_info(put_info(store, a), b) == put_info(put_info(store, b), a),
{
    let one = put_info(put_info(store, a), b);
    let other = put_info(put_info(store, b), a);
    match (a, b) {
        (InfoView::MatchInfo(x), InfoView::MatchInfo(y)) => {
            if match_key_of(x) == match_key_of(y) {
                lemma_match_key_injective(
                    x.match_number,
                    x.match_category,
                    x.team_number,
                    y.match_number,
                    y.match_category,
                    y.team_number,
                );
            }
        },
        (InfoView::RobotInfo(x), InfoView::RobotInfo(y)) => {
            if robot_key_of(x) == robot_key_of(y) {
                lemma_robot_key_injective(
                    x.team_number,
                    x.visit_number,
                    y.team_number,
                    y.visit_number,
                );
            }
        },
        _ => {},
    }
    assert(one.matches =~= other.matches);
    assert(one.robots =~= other.robots);
}

/// A put deletes nothing: the store holds a record under every key under
/// which it held one, and under the key of the record that was put if that
/// record is valid.
pub proof fn lemma_put_keeps_keys(store: DatabaseView, info: InfoView)
    ensures
        store.matches.dom().subset_of(put_info(store, info).matches.dom()),
        store.robots.dom().subset_of(put_info(store, info).robots.dom()),
        info_valid(info) ==> held(put_info(store, info), info) is Some,
        put_info(store, info).matches.dom().subset_of(
            store.matches.dom().union(
                match info {
                    InfoView::MatchInfo(r) => set![match_key_of(r)],
                    InfoView::RobotInfo(r) => Set::empty(),
                },
            ),
        ),
        put_info(store, info).robots.dom().subset_of(
            store.robots.dom().union(
                match info {
                    InfoView::MatchInfo(r) => Set::empty(),
                    InfoView::RobotInfo(r) => set![robot_key_of(r)],
                },
            ),
        ),
{
}

/// A merge deletes nothing.
pub proof fn lemma_merge_keeps_keys(store: DatabaseView, infos: Seq<InfoView>)
    ensures
        store.matches.dom().subset_of(merge(store, infos).matches.dom()),
        store.robots.dom().subset_of(merge(store, infos).robots.dom()),
    decreases infos.len(),
{
    if infos.len() > 0 {
        lemma_merge_keeps_keys(store, infos.drop_last());
        lemma_put_keeps_keys(merge(store, infos.drop_last()), infos.last());
    }
}

/// A place in the store: a key among the match records, or one among the
/// pit visits.
pub struct Place {
    pub of_match: bool,
    pub key: Seq<u8>,
}

/// The place of a record.
pub open spec fn place_of(info: InfoView) -> Place {
    match info {
        InfoView::MatchInfo(r) => Place { of_match: true, key: match_key_of(r) },
        InfoView::RobotInfo(r) => Place { of_match: false, key: robot_key_of(r) },
    }
}

/// What the store holds at a place: nothing at all, bytes that are no
/// record, or a record.
pub open spec fn entry(store: DatabaseView, place: Place) -> Option<Option<InfoView>> {
    if place.of_match {
        if store.matches.contains_key(place.key) {
            Some(
                match store.matches[place.key] {
                    Some(r) => Some(InfoView::MatchInfo(r)),
                    None => None,
                },
            )
        } else {
            None
        }
    } else {
        if store.robots.contains_key(place.key) {
            Some(
                match store.robots[place.key] {
                    Some(r) => Some(InfoView::RobotInfo(r)),
                    None => None,
                },
            )
        } else {
            None
        }
    }
}

/// The valid record of a batch that is modified last among those of a place;
/// of several modified last, the first.
pub open spec fn latest(batch: Seq<InfoView>, place: Place) -> Option<InfoView>
    decreases batch.len(),
{
    if batch.len() == 0 {
        None
    } else {
        let before = latest(batch.drop_last(), place);
        let last = batch.last();
        if info_valid(last) && place_of(last) == place && (before matches Some(b) ==> info_time(b)
            < info_time(last)) {
            Some(last)
        } else {
            before
        }
    }
}

/// What a place holds once a record has had its chance to take it: the
/// record, unless the place held a record modified no earlier.
pub open spec fn contest(held: Option<Option<InfoView>>, challenger: Option<InfoView>) -> Option<
    Option<InfoView>,
> {
    match challenger {
        None => held,
        Some(c) => if held matches Some(Some(h)) && info_time(h) >= info_time(c) {
            held
        } else {
            Some(Some(c))
        },
    }
}

/// After a merge, each place holds what it held, unless the latest record of
/// the batch for that place is modified later.
pub proof fn lemma_merge_by_place(store: DatabaseView, batch: Seq<InfoView>, place: Place)
    ensures
        entry(merge(store, batch), place) == contest(entry(store, place), latest(batch, place)),
    decreases batch.len(),
{
    if batch.len() > 0 {
        let before = batch.drop_last();
        lemma_merge_by_place(store, before, place);
        let mid = merge(store, before);
        let last = batch.last();
        if info_valid(last) && place_of(last) == place {
            match last {
                InfoView::MatchInfo(r) => {
                    assert(place.key == match_key_of(r));
                },
                InfoView::RobotInfo(r) => {
                    assert(place.key == robot_key_of(r));
                },
            }
        } else if place_of(last) != place {
            match last {
                InfoView::MatchInfo(r) => {
                    assert(!place.of_match || place.key != match_key_of(r));
                },
                InfoView::RobotInfo(r) => {
                    assert(place.of_match || place.key != robot_key_of(r));
                },
            }
        }
    }
}

/// The latest record of a batch for a place is a valid record of the batch
/// at that place, and no valid record of the batch at that place is modified
/// later. There is none where the batch has no valid record for the place.
pub proof fn lemma_latest(batch: Seq<InfoView>, place: Place)
    ensures
        latest(batch, place) matches Some(b) ==> batch.contains(b) && info_valid(b) && place_of(b)
            == place,
        forall|i: int|
            0 <= i < batch.len() && info_valid(#[trigger] batch[i]) && place_of(batch[i]) == place
                ==> (latest(batch, place) matches Some(b) && info_time(batch[i]) <= info_time(b)),
    decreases batch.len(),
{
    if batch.len() > 0 {
        let before = batch.drop_last();
        lemma_latest(before, place);
        assert(forall|i: int| 0 <= i < before.len() ==> before[i] == batch[i]);
        let last = batch.last();
        assert(batch[batch.len() - 1] == last);
        if latest(before, place) is Some {
            let b = latest(before, place).unwrap();
            assert(before.contains(b));
            let k = choose|k: int| 0 <= k < before.len() && before[k] == b;
            assert(batch[k] == b);
        }
    }
}

/// Whether no two valid records of the batch tie.
pub open spec fn free_of_ties(batch: Seq<InfoView>) -> bool {
    forall|i: int, j: int|
        0 <= i < batch.len() && 0 <= j < batch.len() && info_valid(#[trigger] batch[i])
            && info_valid(#[trigger] batch[j]) ==> !ties(batch[i], batch[j])
}

/// The order of a batch does not matter: two batches of the same records
/// leave the same store, as long as no two valid records tie.
pub proof fn lemma_merge_any_order(store: DatabaseView, first: Seq<InfoView>, second: Seq<InfoView>)
    requires
        forall|info: InfoView| first.contains(info) <==> second.contains(info),
        free_of_ties(first),
    ensures
        merge(store, first) == merge(store, second),
{
    let one = merge(store, first);
    let other = merge(store, second);
    assert forall|place: Place| entry(one, place) == entry(other, place) by {
        lemma_merge_by_place(store, first, place);
        lemma_merge_by_place(store, second, place);
        lemma_latest(first, place);
        lemma_latest(second, place);
        let a = latest(first, place);
        let b = latest(second, place);
        if a is Some {
            let x = a.unwrap();
            assert(second.contains(x));
            let j = choose|j: int| 0 <= j < second.len() && second[j] == x;
            assert(info_valid(second[j]) && place_of(second[j]) == place);
            assert(b is Some);
        }
        if b is Some {
            let y = b.unwrap();
            assert(first.contains(y));
            let i = choose|i: int| 0 <= i < first.len() && first[i] == y;
            assert(info_valid(first[i]) && place_of(first[i]) == place);
            assert(a is Some);
            let x = a.unwrap();
            let j = choose|j: int| 0 <= j < second.len() && second[j] == x;
            assert(info_valid(second[j]) && place_of(second[j]) == place);
            assert(info_time(x) == info_time(y));
            let k = choose|k: int| 0 <= k < first.len() && first[k] == x;
            lemma_same_place(x, y);
            assert(!ties(first[k], first[i]));
            assert(x == y);
        }
    }
    assert(one.matches =~= other.matches) by {
        assert forall|key: Seq<u8>| #[trigger]
            one.matches.dom().contains(key) == other.matches.dom().contains(key) by {
            let place = Place { of_match: true, key };
            assert(entry(one, place) == entry(other, place));
        }
        assert forall|key: Seq<u8>| #[trigger] one.matches.dom().contains(key) implies one.matches[key]
            == other.matches[key] by {
            let place = Place { of_match: true, key };
            assert(entry(one, place) == entry(other, place));
        }
        assert(one.matches.dom() =~= other.matches.dom());
    }
    assert(one.robots =~= other.robots) by {
        assert forall|key: Seq<u8>| #[trigger]
            one.robots.dom().contains(key) == other.robots.dom().contains(key) by {
            let place = Place { of_match: false, key };
            assert(entry(one, place) == entry(other, place));
        }
        assert forall|key: Seq<u8>| #[trigger] one.robots.dom().contains(key) implies one.robots[key]
            == other.robots[key] by {
            let place = Place { of_match: false, key };
            assert(entry(one, place) == entry(other, place));
        }
        assert(one.robots.dom() =~= other.robots.dom());
    }
}

/// Two records are of one place where they are of one kind and share their
/// natural key, and there only.
pub proof fn lemma_same_place(a: InfoView, b: InfoView)
    ensures
        place_of(a) == place_of(b) <==> same_place(a, b),
{
    match (a, b) {
        (InfoView::MatchInfo(x), InfoView::MatchInfo(y)) => {
            if match_key_of(x) == match_key_of(y) {
                lemma_match_key_injective(
                    x.match_number,
                    x.match_category,
                    x.team_number,
                    y.match_number,
                    y.match_category,
                    y.team_number,
                );
            }
        },
        (InfoView::RobotInfo(x), InfoView::RobotInfo(y)) => {
            if robot_key_of(x) == robot_key_of(y) {
                lemma_robot_key_injective(
                    x.team_number,
                    x.visit_number,
                    y.team_number,
                    y.visit_number,
                );
            }
        },
        _ => {},
    }
}

/// Whether every key of the store holds a valid record, and that record
/// under its own key: so it is in a store that was filled by puts alone.
pub open spec fn well_kept(store: DatabaseView) -> bool {
    &&& forall|key: Seq<u8>|
        store.matches.contains_key(key) ==> (#[trigger] store.matches[key] matches Some(r)
            && match_valid(r) && match_key_of(r) == key)
    &&& forall|key: Seq<u8>|
        store.robots.contains_key(key) ==> (#[trigger] store.robots[key] matches Some(r)
            && robot_valid(r) && robot_key_of(r) == key)
}

/// Whether the keys of the store can be listed in rising order: so they can
/// where they are finitely many, as in every store that a backend holds.
pub open spec fn listable(store: DatabaseView) -> bool {
    &&& lists_keys(sorted_keys(store.matches.dom()), store.matches.dom())
    &&& lists_keys(sorted_keys(store.robots.dom()), store.robots.dom())
}

/// A store that holds nothing is well kept, and a put leaves a well kept
/// store well kept.
pub proof fn lemma_puts_keep_well(store: DatabaseView, info: InfoView)
    ensures
        well_kept(empty_store()),
        well_kept(store) ==> well_kept(put_info(store, info)),
{
}

/// A walk over well kept match records yields each of them, in the order of
/// the keys, and no failure.
proof fn lemma_walk_of_well_kept_matches(
    matches: Map<Seq<u8>, Option<MatchInfoView>>,
    order: Seq<Seq<u8>>,
)
    requires
        forall|i: int|
            0 <= i < order.len() ==> matches.contains_key(#[trigger] order[i]) && (
            matches[order[i]] matches Some(r) && match_valid(r)),
    ensures
        present(list_matches(matches, order)) == Seq::new(
            order.len(),
            |i: int| matches[order[i]].unwrap(),
        ),
        !list_matches(matches, order).contains(None),
    decreases order.len(),
{
    let want = Seq::new(order.len(), |i: int| matches[order[i]].unwrap());
    if order.len() == 0 {
        assert(present(list_matches(matches, order)) =~= want);
    } else {
        let before = order.drop_last();
        assert(forall|i: int| 0 <= i < before.len() ==> before[i] == order[i]);
        lemma_walk_of_well_kept_matches(matches, before);
        let walked = list_matches(matches, before);
        let r = matches[order.last()].unwrap();
        assert(order.last() == order[order.len() - 1]);
        assert(list_matches(matches, order) == walked.push(Some(r)));
        assert(walked.push(Some(r)).drop_last() =~= walked);
        assert(present(list_matches(matches, order)) =~= want);
        assert(!walked.push(Some(r)).contains(None)) by {
            if walked.push(Some(r)).contains(None) {
                let i = choose|i: int|
                    0 <= i < walked.push(Some(r)).len() && walked.push(Some(r))[i]
                        == None::<MatchInfoView>;
                assert(walked[i] == None::<MatchInfoView>);
                assert(walked.contains(None));
            }
        }
    }
}

/// A walk over well kept pit visits yields each of them, in the order of
/// the keys, and no failure.
proof fn lemma_walk_of_well_kept_robots(
    robots: Map<Seq<u8>, Option<RobotInfoView>>,
    order: Seq<Seq<u8>>,
)
    requires
        forall|i: int|
            0 <= i < order.len() ==> robots.contains_key(#[trigger] order[i]) && (
            robots[order[i]] matches Some(r) && robot_valid(r)),
    ensures
        present(list_robots(robots, order)) == Seq::new(
            order.len(),
            |i: int| robots[order[i]].unwrap(),
        ),
        !list_robots(robots, order).contains(None),
    decreases order.len(),
{
    let want = Seq::new(order.len(), |i: int| robots[order[i]].unwrap());
    if order.len() == 0 {
        assert(present(list_robots(robots, order)) =~= want);
    } else {
        let before = order.drop_last();
        assert(forall|i: int| 0 <= i < before.len() ==> before[i] == order[i]);
        lemma_walk_of_well_kept_robots(robots, before);
        let walked = list_robots(robots, before);
        let r = robots[order.last()].unwrap();
        assert(order.last() == order[order.len() - 1]);
        assert(list_robots(robots, order) == walked.push(Some(r)));
        assert(walked.push(Some(r)).drop_last() =~= walked);
        assert(present(list_robots(robots, order)) =~= want);
        assert(!walked.push(Some(r)).contains(None)) by {
            if walked.push(Some(r)).contains(None) {
                let i = choose|i: int|
                    0 <= i < walked.push(Some(r)).len() && walked.push(Some(r))[i]
                        == None::<RobotInfoView>;
                assert(walked[i] == None::<RobotInfoView>);
                assert(walked.contains(None));
            }
        }
    }
}

/// The list of everything that a well kept store holds, loaded into a store
/// that holds nothing, gives that store again: the same records under the
/// same keys, and so the same list. No walk over such a store yields a
/// failure.
pub proof fn lemma_reload(store: DatabaseView)
    requires
        well_kept(store),
        listable(store),
    ensures
        !match_listing(store).contains(None),
        !robot_listing(store).contains(None),
        merge(
            empty_store(),
            as_infos(present(match_listing(store)), present(robot_listing(store))),
        ) == store,
{
    let match_order = sorted_keys(store.matches.dom());
    let robot_order = sorted_keys(store.robots.dom());
    assert forall|i: int| 0 <= i < match_order.len() implies store.matches.contains_key(
        #[trigger] match_order[i],
    ) && (store.matches[match_order[i]] matches Some(r) && match_valid(r)) by {
        assert(match_order.contains(match_order[i]));
    }
    assert forall|i: int| 0 <= i < robot_order.len() implies store.robots.contains_key(
        #[trigger] robot_order[i],
    ) && (store.robots[robot_order[i]] matches Some(r) && robot_valid(r)) by {
        assert(robot_order.contains(robot_order[i]));
    }
    lemma_walk_of_well_kept_matches(store.matches, match_order);
    lemma_walk_of_well_kept_robots(store.robots, robot_order);
    let held_matches = present(match_listing(store));
    let held_robots = present(robot_listing(store));
    let batch = as_infos(held_matches, held_robots);
    let loaded = merge(empty_store(), batch);
    let n = held_matches.len() as int;
    assert forall|place: Place| entry(loaded, place) == entry(store, place) by {
        lemma_merge_by_place(empty_store(), batch, place);
        lemma_latest(batch, place);
        if latest(batch, place) is Some {
            let b = latest(batch, place).unwrap();
            let j = choose|j: int| 0 <= j < batch.len() && batch[j] == b;
            if j < n {
                assert(batch[j] == InfoView::MatchInfo(store.matches[match_order[j]].unwrap()));
                assert(match_order.contains(match_order[j]));
            } else {
                assert(batch[j] == InfoView::RobotInfo(
                    store.robots[robot_order[j - n]].unwrap(),
                ));
                assert(robot_order.contains(robot_order[j - n]));
            }
        } else {
            if place.of_match && store.matches.contains_key(place.key) {
                assert(match_order.contains(place.key));
                let i = choose|i: int| 0 <= i < match_order.len() && match_order[i] == place.key;
                assert(batch[i] == InfoView::MatchInfo(store.matches[match_order[i]].unwrap()));
                assert(info_valid(batch[i]) && place_of(batch[i]) == place);
            }
            if !place.of_match && store.robots.contains_key(place.key) {
                assert(robot_order.contains(place.key));
                let i = choose|i: int| 0 <= i < robot_order.len() && robot_order[i] == place.key;
                assert(batch[n + i] == InfoView::RobotInfo(
                    store.robots[robot_order[i]].unwrap(),
                ));
                assert(info_valid(batch[n + i]) && place_of(batch[n + i]) == place);
            }
        }
    }
    assert(loaded.matches =~= store.matches) by {
        assert forall|key: Seq<u8>| #[trigger]
            loaded.matches.dom().contains(key) == store.matches.dom().contains(key) by {
            let place = Place { of_match: true, key };
            assert(entry(loaded, place) == entry(store, place));
        }
        assert forall|key: Seq<u8>| #[trigger] loaded.matches.dom().contains(key) implies
            loaded.matches[key] == store.matches[key] by {
            let place = Place { of_match: true, key };
            assert(entry(loaded, place) == entry(store, place));
        }
        assert(loaded.matches.dom() =~= store.matches.dom());
    }
    assert(loaded.robots =~= store.robots) by {
        assert forall|key: Seq<u8>| #[trigger]
            loaded.robots.dom().contains(key) == store.robots.dom().contains(key) by {
            let place = Place { of_match: false, key };
            assert(entry(loaded, place) == entry(store, place));
        }
        assert forall|key: Seq<u8>| #[trigger] loaded.robots.dom().contains(key) implies
            loaded.robots[key] == store.robots[key] by {
            let place = Place { of_match: false, key };
            assert(entry(loaded, place) == entry(store, place));
        }
        assert(loaded.robots.dom() =~= store.robots.dom());
    }
}

} // verus!
