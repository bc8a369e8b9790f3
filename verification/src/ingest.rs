//! The ingestion boundary: what a server takes in from a client or a peer.

use crate::data::{Info, InfoView, MatchInfo};
use crate::database::{info_views, merge, stopped_in, Database, DatabaseError};
use crate::merging::info_valid;
use vstd::prelude::*;

verus! {

/// One element of a submitted batch, read both ways: as a record tagged with
/// its kind, and as a bare match record, which older clients send.
#[derive(Debug)]
pub struct Submitted {
    pub tagged: Option<Info>,
    pub bare: Option<MatchInfo>,
}

/// The record that a submitted element stands for: the tagged reading where
/// there is one, else the bare match record, else nothing.
pub open spec fn accepted(entry: Submitted) -> Option<InfoView> {
    match entry.tagged {
        Some(info) => Some(info@),
        None => match entry.bare {
            Some(m) => Some(InfoView::MatchInfo(m@)),
            None => None,
        },
    }
}

/// The records that a submitted batch stands for, in its order. An element
/// that reads as no record is passed over.
pub open spec fn accepted_batch(entries: Seq<Submitted>) -> Seq<InfoView>
    decreases entries.len(),
{
    if entries.len() == 0 {
        Seq::empty()
    } else {
        match accepted(entries.last()) {
            Some(info) => accepted_batch(entries.drop_last()).push(info),
            None => accepted_batch(entries.drop_last()),
        }
    }
}

/// The records that a submitted batch stands for.
pub fn accept_batch(entries: Vec<Submitted>) -> (batch: Vec<Info>)
    ensures
        info_views(batch@) == accepted_batch(entries@),
{
    let ghost all = entries@;
    let mut batch: Vec<Info> = Vec::new();
    assert(all.take(0) =~= Seq::empty());
    assert(info_views(batch@) =~= Seq::empty());
    for entry in it: entries
        invariant
            it.seq() == all,
            info_views(batch@) == accepted_batch(all.take(it.index() as int)),
    {
        let ghost i = it.index() as int;
        let ghost before = batch@;
        assert(all.take(i + 1).drop_last() =~= all.take(i));
        assert(all.take(i + 1).last() == entry);
        match entry.tagged {
            Some(info) => {
                let ghost v = info@;
                batch.push(info);
                assert(info_views(batch@) =~= info_views(before).push(v));
            },
            None => match entry.bare {
                Some(m) => {
                    let ghost v = InfoView::MatchInfo(m@);
                    batch.push(Info::MatchInfo(m));
                    assert(info_views(batch@) =~= info_views(before).push(v));
                },
                None => {},
            },
        }
    }
    assert(all.take(all.len() as int) =~= all);
    batch
}

/// Merges a submitted batch into the store: each record that the batch
/// stands for is put, in the order of the batch. The merge fails only where
/// the backend or the encoder fails.
pub fn push_data(database: &mut Database, entries: Vec<Submitted>) -> (res: Result<
    (),
    DatabaseError,
>)
    ensures
        res is Ok ==> final(database)@ == merge(old(database)@, accepted_batch(entries@)),
        res is Err ==> stopped_in(final(database)@, old(database)@, accepted_batch(entries@)),
        (forall|i: int|
            0 <= i < accepted_batch(entries@).len() ==> !info_valid(
                #[trigger] accepted_batch(entries@)[i],
            )) ==> res is Ok,
        res matches Err(e) ==> !(e is Malformed),
{
    let batch = accept_batch(entries);
    assert(forall|i: int|
        0 <= i < batch@.len() ==> (#[trigger] batch@[i])@ == info_views(batch@)[i]);
    database.merge_info(&batch)
}

} // verus!
