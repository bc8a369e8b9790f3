//! One cycle of synchronisation with a leader, as the decisions between the
//! two exchanges: push everything held, then pull everything the leader holds
//! and merge it. Whoever runs the cycle performs the exchanges.

use crate::data::Info;
use crate::database::{
    as_infos, backend_failure_text, begins_with, decoding_failure_text, info_views,
    match_listing, merge, present, robot_listing, stopped_in, Database, DatabaseView,
};
use crate::merging::info_valid;
use vstd::prelude::*;

verus! {

/// A reply of a server as it arrives: whether the request succeeded, what it
/// returned, and what went wrong.
#[derive(Debug)]
pub struct WebResultInner<T> {
    pub success: bool,
    pub data: Option<T>,
    pub error: Option<String>,
}

/// The text that stands for a failure without a text of its own.
pub open spec fn no_error_text() -> Seq<char> {
    "No error"@
}

/// The text that stands for a successful reply without data.
pub open spec fn no_data_text() -> Seq<char> {
    "No data"@
}

/// The text that stands for a reply that the cycle did not wait for.
pub open spec fn out_of_turn_text() -> Seq<char> {
    "Reply out of turn"@
}

/// What a reply means: its data where the request succeeded, and its error
/// text where it failed.
pub fn web_result<T>(inner: WebResultInner<T>) -> (res: Result<Option<T>, String>)
    ensures
        inner.success ==> res == Ok::<Option<T>, String>(inner.data),
        !inner.success ==> (res matches Err(text) && text@ == match inner.error {
            Some(e) => e@,
            None => no_error_text(),
        }),
{
    if inner.success {
        Ok(inner.data)
    } else {
        match inner.error {
            Some(e) => Err(e),
            None => Err("No error".to_owned()),
        }
    }
}

/// Where a cycle stands.
#[derive(Debug, Clone, Copy, PartialEq, Eq, Structural)]
pub enum SyncState {
    /// Nothing has been sent.
    Start,
    /// The local records are on their way to the leader.
    Pushing,
    /// The leader has been asked for its records.
    Pulling,
    /// The cycle is over.
    Finished,
}

/// What came back from outside.
#[derive(Debug)]
pub enum SyncEvent {
    /// The cycle is due.
    Begin,
    /// The leader's reply to the push, or the failure of the transport.
    Pushed(Result<WebResultInner<()>, String>),
    /// The leader's reply to the pull, or the failure of the transport.
    Pulled(Result<WebResultInner<Vec<Info>>, String>),
}

/// What to do next.
#[derive(Debug)]
pub enum SyncAction {
    /// Send these records to the leader's ingestion endpoint.
    Push(Vec<Info>),
    /// Ask the leader for all its records.
    Pull,
    /// The cycle is over: with success, or with the text of what went wrong.
    Done(Result<(), String>),
}

/// Whether an action ends the cycle with a failure.
pub open spec fn fails(action: SyncAction) -> bool {
    action matches SyncAction::Done(Err(_))
}

/// Whether an action ends the cycle with a failure of this text.
pub open spec fn fails_with(action: SyncAction, text: Seq<char>) -> bool {
    action matches SyncAction::Done(Err(t)) && t@ == text
}

/// Whether the store holds bytes that are no record.
pub open spec fn unreadable(store: DatabaseView) -> bool {
    match_listing(store).contains(None) || robot_listing(store).contains(None)
}

/// The next step of a cycle.
///
/// At the start, everything the store holds is pushed; where the backend
/// fails or the store holds bytes that are no record, the cycle fails with
/// the words of that failure. After the push, a failure of the transport or
/// of the leader ends the cycle; otherwise the leader's records are pulled.
/// After the pull, a failure or a reply without data ends the cycle;
/// otherwise the records are merged, and the cycle ends as the merge does:
/// well where no record of the reply is valid, and else well unless the
/// backend or the encoder fails. The store changes in that one step only. A
/// reply out of turn ends the cycle.
pub fn try_sync(state: SyncState, event: SyncEvent, database: &mut Database) -> (res: (
    SyncState,
    SyncAction,
))
    ensures
        res.1 is Done <==> res.0 == SyncState::Finished,
        res.1 is Push ==> res.0 == SyncState::Pushing,
        res.1 is Pull ==> res.0 == SyncState::Pulling,
        !(state == SyncState::Pulling && event is Pulled) ==> final(database)@ == old(database)@,
        match (state, event) {
            (SyncState::Start, SyncEvent::Begin) => match res.1 {
                SyncAction::Push(list) => !unreadable(old(database)@) && info_views(list@)
                    == as_infos(
                    present(match_listing(old(database)@)),
                    present(robot_listing(old(database)@)),
                ),
                SyncAction::Pull => false,
                SyncAction::Done(outcome) => outcome matches Err(text) && (begins_with(
                    text@,
                    backend_failure_text(),
                ) || (unreadable(old(database)@) && begins_with(
                    text@,
                    decoding_failure_text(),
                ))),
            },
            (SyncState::Pushing, SyncEvent::Pushed(Err(text))) => fails_with(res.1, text@),
            (SyncState::Pushing, SyncEvent::Pushed(Ok(reply))) => if reply.success {
                res.1 is Pull
            } else {
                fails_with(
                    res.1,
                    match reply.error {
                        Some(e) => e@,
                        None => no_error_text(),
                    },
                )
            },
            (SyncState::Pulling, SyncEvent::Pulled(Err(text))) => fails_with(res.1, text@)
                && final(database)@ == old(database)@,
            (SyncState::Pulling, SyncEvent::Pulled(Ok(reply))) => if !reply.success {
                fails_with(
                    res.1,
                    match reply.error {
                        Some(e) => e@,
                        None => no_error_text(),
                    },
                ) && final(database)@ == old(database)@
            } else {
                match reply.data {
                    None => fails_with(res.1, no_data_text()) && final(database)@ == old(
                        database,
                    )@,
                    Some(infos) => {
                        &&& match res.1 {
                            SyncAction::Done(Ok(())) => final(database)@ == merge(
                                old(database)@,
                                info_views(infos@),
                            ),
                            SyncAction::Done(Err(text)) => stopped_in(
                                final(database)@,
                                old(database)@,
                                info_views(infos@),
                            ) && (begins_with(text@, backend_failure_text()) || begins_with(
                                text@,
                                decoding_failure_text(),
                            )),
                            _ => false,
                        }
                        &&& (forall|i: int|
                            0 <= i < infos@.len() ==> !info_valid(#[trigger] infos@[i]@))
                            ==> res.1 matches SyncAction::Done(Ok(_))
                    },
                }
            },
            _ => fails_with(res.1, out_of_turn_text()),
        },
{
    match (state, event) {
        (SyncState::Start, SyncEvent::Begin) => match database.get_info_list() {
            Ok(list) => (SyncState::Pushing, SyncAction::Push(list)),
            Err(e) => (SyncState::Finished, SyncAction::Done(Err(e.message()))),
        },
        (SyncState::Pushing, SyncEvent::Pushed(Err(text))) => (
            SyncState::Finished,
            SyncAction::Done(Err(text)),
        ),
        (SyncState::Pushing, SyncEvent::Pushed(Ok(reply))) => match web_result(reply) {
            Ok(_) => (SyncState::Pulling, SyncAction::Pull),
            Err(text) => (SyncState::Finished, SyncAction::Done(Err(text))),
        },
        (SyncState::Pulling, SyncEvent::Pulled(Err(text))) => (
            SyncState::Finished,
            SyncAction::Done(Err(text)),
        ),
        (SyncState::Pulling, SyncEvent::Pulled(Ok(reply))) => match web_result(reply) {
            Ok(Some(infos)) => match database.merge_info(&infos) {
                Ok(()) => (SyncState::Finished, SyncAction::Done(Ok(()))),
                Err(e) => (SyncState::Finished, SyncAction::Done(Err(e.message()))),
            },
            Ok(None) => (SyncState::Finished, SyncAction::Done(Err("No data".to_owned()))),
            Err(text) => (SyncState::Finished, SyncAction::Done(Err(text))),
        },
        _ => (SyncState::Finished, SyncAction::Done(Err("Reply out of turn".to_owned()))),
    }
}

} // verus!
