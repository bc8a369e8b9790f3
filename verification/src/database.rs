//! The record store: a durable map from natural keys to records that keeps,
//! of two records with one key, the one modified last.
//!
//! The store is described by what it holds decoded: under each key a record,
//! or nothing where the stored bytes are no record.

use crate::codec::{
    decode_match_fields, decode_visit_fields, encode_match_fields, encode_visit_fields,
    lemma_match_fields_round_trip, lemma_visit_fields_round_trip, match_of_fields, match_to_fields,
    stored_match, stored_visit, visit_of_fields, visit_to_fields,
};
use crate::data::{
    match_views, robot_views, Info, InfoView, MatchInfo, MatchInfoView, MatchType, RobotInfo,
    RobotInfoView,
};
use crate::keys::{
    category_text_of, has_prefix, lemma_key_prefixes, lemma_one_listing, lists_keys, match_key_of,
    match_prefix, push_bytes, push_decimal, robot_key_of, robot_prefix, sorted_keys,
};
use crate::merging::info_valid;
use vstd::prelude::*;
use vstd::string::StringExecFns;

verus! {

/// `sled::Db`: the embedded store that keeps the bytes.
#[verifier::external_type_specification]
#[verifier::external_body]
pub struct ExDb(sled::Db);

/// `sled::Error`: why the embedded store failed.
#[verifier::external_type_specification]
#[verifier::external_body]
pub struct ExSledError(sled::Error);

/// `std::path::Path`: where a store lies.
#[verifier::external_type_specification]
#[verifier::external_body]
pub struct ExPath(std::path::Path);

/// The time, in milliseconds, at which the event began. A record last
/// modified at or before it is from a rehearsal.
pub const COMP_START: u64 = 1650316000000;

/// Match numbers stay below this.
pub const MATCH_CEILING: u32 = 100;

/// Visit numbers stay below this.
pub const VISIT_CEILING: u32 = 10;

/// Whether a match record may enter the store.
pub open spec fn match_valid(r: MatchInfoView) -> bool {
    &&& r.match_number != 0
    &&& r.match_number < MATCH_CEILING
    &&& r.team_number != 0
    &&& r.last_modified_time > COMP_START
}

/// Whether a pit visit may enter the store.
pub open spec fn robot_valid(r: RobotInfoView) -> bool {
    &&& r.visit_number != 0
    &&& r.visit_number < VISIT_CEILING
    &&& r.team_number != 0
    &&& r.last_modified_time > COMP_START
}

/// Whether a match record may enter the store.
pub fn is_match_valid(match_info: &MatchInfo) -> (valid: bool)
    ensures
        valid == match_valid(match_info@),
{
    match_info.match_number != 0 && match_info.match_number < MATCH_CEILING
        && match_info.team_number != 0 && match_info.last_modified_time > COMP_START
}

/// Whether a pit visit may enter the store.
pub fn is_robot_valid(robot_info: &RobotInfo) -> (valid: bool)
    ensures
        valid == robot_valid(robot_info@),
{
    robot_info.visit_number != 0 && robot_info.visit_number < VISIT_CEILING
        && robot_info.team_number != 0 && robot_info.last_modified_time > COMP_START
}

/// What a backend holds: the bytes stored under each key.
pub uninterp spec fn backend_contents(db: sled::Db) -> Map<Seq<u8>, Seq<u8>>;

/// The keys of a list of entries.
pub open spec fn entry_keys(list: Seq<(Vec<u8>, Vec<u8>)>) -> Seq<Seq<u8>> {
    Seq::new(list.len(), |i: int| list[i].0@)
}

/// The keys of `contents` that begin with `prefix`.
pub open spec fn keys_under(contents: Map<Seq<u8>, Seq<u8>>, prefix: Seq<u8>) -> Set<Seq<u8>> {
    Set::new(|key: Seq<u8>| contents.contains_key(key) && has_prefix(key, prefix))
}

/// `sled::open`: the backend stored at a path, created where there is none.
/// Nothing is said of what it holds.
#[verifier::external_body]
fn backend_open(file: &std::path::Path) -> (res: Result<sled::Db, sled::Error>) {
    sled::open(file)
}

/// `sled::Config::open` on a temporary configuration: a backend that is
/// removed when it is dropped. Nothing is said of what it holds.
#[verifier::external_body]
fn backend_temporary() -> (res: Result<sled::Db, sled::Error>) {
    sled::Config::new().temporary(true).open()
}

/// The contents of a backend that holds nothing.
pub open spec fn no_contents() -> Map<Seq<u8>, Seq<u8>> {
    Map::empty()
}

/// `sled::Tree::clear`: afterwards the backend holds nothing. Where the call
/// fails, nothing is said of what is left.
#[verifier::external_body]
fn backend_clear(db: &mut sled::Db) -> (res: Result<(), sled::Error>)
    ensures
        res is Ok ==> backend_contents(*final(db)) == no_contents(),
{
    db.clear()
}

/// `sled::Tree::get`: the bytes stored under a key, if the backend holds the
/// key.
#[verifier::external_body]
fn backend_get(db: &sled::Db, key: &Vec<u8>) -> (res: Result<Option<Vec<u8>>, sled::Error>)
    ensures
        res matches Ok(found) ==> match found {
            Some(bytes) => backend_contents(*db).contains_key(key@) && backend_contents(*db)[key@]
                == bytes@,
            None => !backend_contents(*db).contains_key(key@),
        },
{
    db.get(key).map(|found| found.map(|bytes| bytes.to_vec()))
}

/// `sled::Tree::insert`: afterwards the backend holds the bytes under the
/// key, and everything else as before. Where the call fails, the backend
/// holds either what it held or that.
#[verifier::external_body]
fn backend_insert(db: &mut sled::Db, key: Vec<u8>, value: Vec<u8>) -> (res: Result<(), sled::Error>)
    ensures
        res is Ok ==> backend_contents(*final(db)) == backend_contents(*old(db)).insert(
            key@,
            value@,
        ),
        res is Err ==> backend_contents(*final(db)) == backend_contents(*old(db))
            || backend_contents(*final(db)) == backend_contents(*old(db)).insert(key@, value@),
{
    db.insert(key, value).map(|_| ())
}

/// `sled::Tree::scan_prefix`, walked to its end: the keys that begin with
/// the prefix, and no others, in rising order, each with the bytes stored
/// under it.
#[verifier::external_body]
fn backend_scan(db: &sled::Db, prefix: &Vec<u8>) -> (res: Result<Vec<(Vec<u8>, Vec<u8>)>, sled::Error>)
    ensures
        res matches Ok(list) ==> lists_keys(
            entry_keys(list@),
            keys_under(backend_contents(*db), prefix@),
        ) && forall|i: int|
            0 <= i < list@.len() ==> (#[trigger] list@[i]).1@ == backend_contents(*db)[list@[i].0@],
{
    db.scan_prefix(prefix).map(|item| item.map(|(key, value)| (key.to_vec(), value.to_vec()))).collect()
}

/// What went wrong in the store.
#[derive(Debug)]
pub enum DatabaseError {
    /// The backend failed.
    Sled(sled::Error),
    /// Stored bytes could not be decoded, or a record could not be encoded.
    Serde(bincode::Error),
    /// Stored bytes decode to fields that make up no record.
    Malformed,
}

/// `Display` of `sled::Error`: the words of the backend for its failure.
/// Nothing is said of them.
#[verifier::external_body]
fn sled_error_text(error: &sled::Error) -> (text: String) {
    format!("{}", error)
}

/// `Display` of `bincode::Error`: the words of the decoder for its failure.
/// Nothing is said of them.
#[verifier::external_body]
fn bincode_error_text(error: &bincode::Error) -> (text: String) {
    format!("{}", error)
}

/// The words that every failure of the backend begins with.
pub open spec fn backend_failure_text() -> Seq<char> {
    "Internal database error: "@
}

/// The words that every failure of the encoding or decoding begins with.
pub open spec fn decoding_failure_text() -> Seq<char> {
    "Failed to decode data in database: "@
}

/// The words for stored bytes that decode to fields that make up no record.
pub open spec fn malformed_text() -> Seq<char> {
    "Failed to decode data in database: no such value"@
}

/// Whether `text` begins with `start`.
pub open spec fn begins_with(text: Seq<char>, start: Seq<char>) -> bool {
    text.len() >= start.len() && text.take(start.len() as int) == start
}

impl DatabaseError {
    /// What went wrong, in words: for a failure of the backend or of the
    /// encoding, the words for the kind of failure and then the words of the
    /// backend or the encoder.
    pub fn message(&self) -> (text: String)
        ensures
            self is Sled ==> begins_with(text@, backend_failure_text()),
            !(self is Sled) ==> begins_with(text@, decoding_failure_text()),
            self is Malformed ==> text@ == malformed_text(),
    {
        match self {
            DatabaseError::Sled(e) => {
                let words = sled_error_text(e);
                let text = "Internal database error: ".to_owned().concat(words.as_str());
                assert(text@.take(backend_failure_text().len() as int) =~= backend_failure_text());
                text
            },
            DatabaseError::Serde(e) => {
                let words = bincode_error_text(e);
                let text = "Failed to decode data in database: ".to_owned().concat(words.as_str());
                assert(text@.take(decoding_failure_text().len() as int)
                    =~= decoding_failure_text());
                text
            },
            DatabaseError::Malformed => {
                proof {
                    reveal_strlit("Failed to decode data in database: no such value");
                    reveal_strlit("Failed to decode data in database: ");
                    assert(malformed_text().take(decoding_failure_text().len() as int)
                        =~= decoding_failure_text());
                }
                "Failed to decode data in database: no such value".to_owned()
            },
        }
    }
}

/// A failure of the backend as a failure of the store, and what the backend
/// returned where it did not fail.
fn from_backend<T>(outcome: Result<T, sled::Error>) -> (res: Result<T, DatabaseError>)
    ensures
        match outcome {
            Ok(value) => res matches Ok(handed_on) && handed_on == value,
            Err(e) => res matches Err(DatabaseError::Sled(handed_on)) && handed_on == e,
        },
{
    match outcome {
        Ok(value) => Ok(value),
        Err(e) => Err(DatabaseError::Sled(e)),
    }
}

/// A failure of the encoder as a failure of the store, and what the encoder
/// returned where it did not fail.
fn from_encoder<T>(outcome: Result<T, bincode::Error>) -> (res: Result<T, DatabaseError>)
    ensures
        match outcome {
            Ok(value) => res matches Ok(handed_on) && handed_on == value,
            Err(e) => res matches Err(DatabaseError::Serde(handed_on)) && handed_on == e,
        },
{
    match outcome {
        Ok(value) => Ok(value),
        Err(e) => Err(DatabaseError::Serde(e)),
    }
}

/// The record store.
pub struct Database {
    backend: sled::Db,
}

/// A store as a mathematical value: under each key a record, or nothing
/// where the stored bytes are no record.
pub struct DatabaseView {
    pub matches: Map<Seq<u8>, Option<MatchInfoView>>,
    pub robots: Map<Seq<u8>, Option<RobotInfoView>>,
}

/// The store that a backend with these contents is.
pub open spec fn model_of(contents: Map<Seq<u8>, Seq<u8>>) -> DatabaseView {
    DatabaseView {
        matches: Map::new(
            |key: Seq<u8>| keys_under(contents, match_prefix()).contains(key),
            |key: Seq<u8>| stored_match(contents[key]),
        ),
        robots: Map::new(
            |key: Seq<u8>| keys_under(contents, robot_prefix()).contains(key),
            |key: Seq<u8>| stored_visit(contents[key]),
        ),
    }
}

impl View for Database {
    type V = DatabaseView;

    closed spec fn view(&self) -> DatabaseView {
        model_of(backend_contents(self.backend))
    }
}

/// Whether the store holds under the key of `r` a record modified no earlier
/// than `r`.
pub open spec fn match_superseded(matches: Map<Seq<u8>, Option<MatchInfoView>>, r: MatchInfoView) -> bool {
    let key = match_key_of(r);
    matches.contains_key(key) && (matches[key] matches Some(held) && held.last_modified_time
        >= r.last_modified_time)
}

/// Whether the store holds under the key of `r` a visit modified no earlier
/// than `r`.
pub open spec fn robot_superseded(robots: Map<Seq<u8>, Option<RobotInfoView>>, r: RobotInfoView) -> bool {
    let key = robot_key_of(r);
    robots.contains_key(key) && (robots[key] matches Some(held) && held.last_modified_time
        >= r.last_modified_time)
}

/// The match records after `r` is put: as before where `r` is not valid or
/// is superseded, and with `r` under its key otherwise.
pub open spec fn put_match(matches: Map<Seq<u8>, Option<MatchInfoView>>, r: MatchInfoView) -> Map<
    Seq<u8>,
    Option<MatchInfoView>,
> {
    if !match_valid(r) || match_superseded(matches, r) {
        matches
    } else {
        matches.insert(match_key_of(r), Some(r))
    }
}

/// The pit visits after `r` is put: as before where `r` is not valid or is
/// superseded, and with `r` under its key otherwise.
pub open spec fn put_robot(robots: Map<Seq<u8>, Option<RobotInfoView>>, r: RobotInfoView) -> Map<
    Seq<u8>,
    Option<RobotInfoView>,
> {
    if !robot_valid(r) || robot_superseded(robots, r) {
        robots
    } else {
        robots.insert(robot_key_of(r), Some(r))
    }
}

/// The store after a record of either kind is put.
pub open spec fn put_info(store: DatabaseView, info: InfoView) -> DatabaseView {
    match info {
        InfoView::MatchInfo(r) => DatabaseView {
            matches: put_match(store.matches, r),
            robots: store.robots,
        },
        InfoView::RobotInfo(r) => DatabaseView {
            matches: store.matches,
            robots: put_robot(store.robots, r),
        },
    }
}

/// The store after each record of a batch is put, in the order of the batch.
pub open spec fn merge(store: DatabaseView, infos: Seq<InfoView>) -> DatabaseView
    decreases infos.len(),
{
    if infos.len() == 0 {
        store
    } else {
        put_info(merge(store, infos.drop_last()), infos.last())
    }
}

/// Whether `after` is a store in which merging `batch` into `before` may have
/// stopped: with some of the batch merged, and the record after that put or
/// not.
pub open spec fn stopped_in(after: DatabaseView, before: DatabaseView, batch: Seq<InfoView>) -> bool {
    exists|n: int|
        0 <= n < batch.len() && (after == merge(before, #[trigger] batch.take(n)) || after
            == merge(before, batch.take(n + 1)))
}

/// The records of a batch as mathematical values.
pub open spec fn info_views(infos: Seq<Info>) -> Seq<InfoView> {
    Seq::new(infos.len(), |i: int| infos[i]@)
}

/// A backend that takes in bytes under a match key holds that record there,
/// and everything else as before.
proof fn lemma_insert_match(contents: Map<Seq<u8>, Seq<u8>>, r: MatchInfoView, bytes: Seq<u8>)
    requires
        stored_match(bytes) == Some(r),
    ensures
        model_of(contents.insert(match_key_of(r), bytes)).matches == model_of(
            contents,
        ).matches.insert(match_key_of(r), Some(r)),
        model_of(contents.insert(match_key_of(r), bytes)).robots == model_of(contents).robots,
{
    let key = match_key_of(r);
    lemma_key_prefixes(r.match_number, r.match_category, r.team_number, 0);
    let after = contents.insert(key, bytes);
    assert(model_of(after).matches =~= model_of(contents).matches.insert(key, Some(r)));
    assert(model_of(after).robots =~= model_of(contents).robots);
}

/// A backend that takes in bytes under a visit key holds that visit there,
/// and everything else as before.
proof fn lemma_insert_robot(contents: Map<Seq<u8>, Seq<u8>>, r: RobotInfoView, bytes: Seq<u8>)
    requires
        stored_visit(bytes) == Some(r),
    ensures
        model_of(contents.insert(robot_key_of(r), bytes)).robots == model_of(
            contents,
        ).robots.insert(robot_key_of(r), Some(r)),
        model_of(contents.insert(robot_key_of(r), bytes)).matches == model_of(contents).matches,
{
    let key = robot_key_of(r);
    lemma_key_prefixes(0, MatchType::Practice, r.team_number, r.visit_number);
    let after = contents.insert(key, bytes);
    assert(model_of(after).robots =~= model_of(contents).robots.insert(key, Some(r)));
    assert(model_of(after).matches =~= model_of(contents).matches);
}

/// The store that holds nothing.
pub open spec fn empty_store() -> DatabaseView {
    DatabaseView { matches: Map::empty(), robots: Map::empty() }
}

/// What an attempt to open a backend comes to: the store that holds what the
/// backend holds, or the failure of the backend as a failure of the store.
fn opened(outcome: Result<sled::Db, sled::Error>) -> (res: Result<Database, DatabaseError>)
    ensures
        match outcome {
            Ok(backend) => res matches Ok(database) && database@ == model_of(
                backend_contents(backend),
            ),
            Err(e) => res matches Err(DatabaseError::Sled(handed_on)) && handed_on == e,
        },
{
    match outcome {
        Ok(backend) => Ok(Database { backend }),
        Err(e) => Err(DatabaseError::Sled(e)),
    }
}

/// Whether the bytes read under the key of a match record hold a record
/// modified no earlier than that record.
fn match_held_later(found: &Option<Vec<u8>>, match_info: &MatchInfo) -> (later: bool)
    ensures
        later == (*found matches Some(bytes) && (stored_match(bytes@) matches Some(held)
            && held.last_modified_time >= match_info.last_modified_time)),
{
    match found {
        Some(data) => match decode_match_fields(data) {
            Ok(fields) => match match_of_fields(fields) {
                Some(held) => held.last_modified_time >= match_info.last_modified_time,
                None => false,
            },
            Err(_) => false,
        },
        None => false,
    }
}

/// Whether the bytes read under the key of a pit visit hold a visit modified
/// no earlier than that visit.
fn robot_held_later(found: &Option<Vec<u8>>, robot_info: &RobotInfo) -> (later: bool)
    ensures
        later == (*found matches Some(bytes) && (stored_visit(bytes@) matches Some(held)
            && held.last_modified_time >= robot_info.last_modified_time)),
{
    match found {
        Some(data) => match decode_visit_fields(data) {
            Ok(fields) => match visit_of_fields(fields) {
                Some(held) => held.last_modified_time >= robot_info.last_modified_time,
                None => false,
            },
            Err(_) => false,
        },
        None => false,
    }
}

impl Database {
    /// The store at a path, created where there is none. What it holds is
    /// what lies at the path, of which nothing is said. A failure is a
    /// failure of the backend.
    pub fn open(file: &std::path::Path) -> (res: Result<Database, DatabaseError>)
        ensures
            res matches Err(e) ==> e is Sled,
    {
        opened(backend_open(file))
    }

    /// A store that holds nothing and is gone when it is dropped. A failure
    /// is a failure of the backend.
    pub fn temporary() -> (res: Result<Database, DatabaseError>)
        ensures
            res matches Ok(database) ==> database@ == empty_store(),
            res matches Err(e) ==> e is Sled,
    {
        let mut database = match opened(backend_temporary()) {
            Ok(database) => database,
            Err(e) => {
                return Err(e);
            },
        };
        match from_backend(backend_clear(&mut database.backend)) {
            Ok(()) => {
                assert(database@.matches =~= empty_store().matches);
                assert(database@.robots =~= empty_store().robots);
                Ok(database)
            },
            Err(e) => Err(e),
        }
    }

    /// The key under which a match record is stored.
    pub fn get_match_id(match_info: &MatchInfo) -> (id: Vec<u8>)
        ensures
            id@ == match_key_of(match_info@),
    {
        let mut id: Vec<u8> = vec![109u8, 97u8, 116u8, 99u8, 104u8, 95u8];
        assert(id@ =~= match_prefix());
        push_decimal(&mut id, match_info.match_number);
        id.push(95u8);
        let name = category_text_of(match_info.match_category);
        push_bytes(&mut id, &name);
        id.push(95u8);
        push_decimal(&mut id, match_info.team_number);
        assert(id@ =~= match_key_of(match_info@));
        id
    }

    /// The key under which a pit visit is stored.
    pub fn get_robot_id(robot_info: &RobotInfo) -> (id: Vec<u8>)
        ensures
            id@ == robot_key_of(robot_info@),
    {
        let mut id: Vec<u8> = vec![114u8, 111u8, 98u8, 111u8, 116u8, 95u8];
        assert(id@ =~= robot_prefix());
        push_decimal(&mut id, robot_info.team_number);
        id.push(95u8);
        push_decimal(&mut id, robot_info.visit_number);
        assert(id@ =~= robot_key_of(robot_info@));
        id
    }

    /// Puts a match record: nothing happens where the record is not valid, or
    /// where the store holds under its key a record modified no earlier;
    /// otherwise the record takes that place. A put fails only where the
    /// backend or the encoder fails; that failure is handed on, and the store
    /// is then as before or as after the put.
    pub fn write_match(&mut self, match_info: &MatchInfo) -> (res: Result<(), DatabaseError>)
        ensures
            final(self)@.robots == old(self)@.robots,
            res is Ok ==> final(self)@.matches == put_match(old(self)@.matches, match_info@),
            res is Err ==> final(self)@.matches == old(self)@.matches || final(self)@.matches
                == put_match(old(self)@.matches, match_info@),
            !match_valid(match_info@) ==> res is Ok,
            res matches Err(e) ==> !(e is Malformed),
    {
        if !is_match_valid(match_info) {
            return Ok(());
        }
        let id = Database::get_match_id(match_info);
        let ghost contents = backend_contents(self.backend);
        let ghost key = match_key_of(match_info@);
        proof {
            lemma_key_prefixes(
                match_info.match_number,
                match_info.match_category,
                match_info.team_number,
                0,
            );
        }
        let found = match from_backend(backend_get(&self.backend, &id)) {
            Ok(found) => found,
            Err(e) => {
                return Err(e);
            },
        };
        if match_held_later(&found, match_info) {
            return Ok(());
        }
        assert(!match_superseded(self@.matches, match_info@));
        let fields = match_to_fields(match_info);
        let data = match from_encoder(encode_match_fields(&fields)) {
            Ok(data) => data,
            Err(e) => {
                return Err(e);
            },
        };
        proof {
            lemma_match_fields_round_trip(match_info@);
            lemma_insert_match(contents, match_info@, data@);
        }
        from_backend(backend_insert(&mut self.backend, id, data))
    }

    /// Puts a pit visit, as `write_match` puts a match record.
    pub fn write_robot(&mut self, robot_info: &RobotInfo) -> (res: Result<(), DatabaseError>)
        ensures
            final(self)@.matches == old(self)@.matches,
            res is Ok ==> final(self)@.robots == put_robot(old(self)@.robots, robot_info@),
            res is Err ==> final(self)@.robots == old(self)@.robots || final(self)@.robots
                == put_robot(old(self)@.robots, robot_info@),
            !robot_valid(robot_info@) ==> res is Ok,
            res matches Err(e) ==> !(e is Malformed),
    {
        if !is_robot_valid(robot_info) {
            return Ok(());
        }
        let id = Database::get_robot_id(robot_info);
        let ghost contents = backend_contents(self.backend);
        let ghost key = robot_key_of(robot_info@);
        proof {
            lemma_key_prefixes(0, MatchType::Practice, robot_info.team_number, robot_info.visit_number);
        }
        let found = match from_backend(backend_get(&self.backend, &id)) {
            Ok(found) => found,
            Err(e) => {
                return Err(e);
            },
        };
        if robot_held_later(&found, robot_info) {
            return Ok(());
        }
        assert(!robot_superseded(self@.robots, robot_info@));
        let fields = visit_to_fields(robot_info);
        let data = match from_encoder(encode_visit_fields(&fields)) {
            Ok(data) => data,
            Err(e) => {
                return Err(e);
            },
        };
        proof {
            lemma_visit_fields_round_trip(robot_info@);
            lemma_insert_robot(contents, robot_info@, data@);
        }
        from_backend(backend_insert(&mut self.backend, id, data))
    }

    /// Puts a record of either kind, as `write_match` and `write_robot` do.
    pub fn write_info(&mut self, info: &Info) -> (res: Result<(), DatabaseError>)
        ensures
            res is Ok ==> final(self)@ == put_info(old(self)@, info@),
            res is Err ==> final(self)@ == old(self)@ || final(self)@ == put_info(
                old(self)@,
                info@,
            ),
            !info_valid(info@) ==> res is Ok,
            res matches Err(e) ==> !(e is Malformed),
    {
        match info {
            Info::MatchInfo(match_info) => self.write_match(match_info),
            Info::RobotInfo(robot_info) => self.write_robot(robot_info),
        }
    }

    /// Puts each record of a batch, in the order of the batch, and stops at
    /// the first failure, which it hands on: a failure of the backend or of
    /// the encoder.
    pub fn merge_info(&mut self, infos: &Vec<Info>) -> (res: Result<(), DatabaseError>)
        ensures
            res is Ok ==> final(self)@ == merge(old(self)@, info_views(infos@)),
            res is Err ==> stopped_in(final(self)@, old(self)@, info_views(infos@)),
            (forall|i: int| 0 <= i < infos.len() ==> !info_valid(#[trigger] infos@[i]@)) ==> res
                is Ok,
            res matches Err(e) ==> !(e is Malformed),
    {
        let ghost views = info_views(infos@);
        let ghost start = self@;
        let mut i: usize = 0;
        while i < infos.len()
            invariant
                i <= infos.len(),
                views == info_views(infos@),
                start == old(self)@,
                self@ == merge(start, views.take(i as int)),
            decreases infos.len() - i,
        {
            proof {
                assert(views.take(i + 1).drop_last() =~= views.take(i as int));
                assert(views.take(i + 1).last() == infos@[i as int]@);
            }
            match self.write_info(&infos[i]) {
                Ok(()) => {},
                Err(e) => {
                    proof {
                        let n = i as int;
                        assert(self@ == merge(old(self)@, views.take(n)) || self@ == merge(
                            old(self)@,
                            views.take(n + 1),
                        ));
                    }
                    return Err(e);
                },
            }
            i += 1;
        }
        assert(views.take(i as int) =~= views);
        Ok(())
    }
}

/// What a walk over the match records yields for the keys in `order`: each
/// valid record, and nothing in the place of stored bytes that are no record.
/// A record that is not valid is passed over.
pub open spec fn list_matches(
    matches: Map<Seq<u8>, Option<MatchInfoView>>,
    order: Seq<Seq<u8>>,
) -> Seq<Option<MatchInfoView>>
    decreases order.len(),
{
    if order.len() == 0 {
        Seq::empty()
    } else {
        let before = list_matches(matches, order.drop_last());
        match matches[order.last()] {
            None => before.push(None),
            Some(r) => if match_valid(r) {
                before.push(Some(r))
            } else {
                before
            },
        }
    }
}

/// What a walk over the pit visits yields for the keys in `order`.
pub open spec fn list_robots(
    robots: Map<Seq<u8>, Option<RobotInfoView>>,
    order: Seq<Seq<u8>>,
) -> Seq<Option<RobotInfoView>>
    decreases order.len(),
{
    if order.len() == 0 {
        Seq::empty()
    } else {
        let before = list_robots(robots, order.drop_last());
        match robots[order.last()] {
            None => before.push(None),
            Some(r) => if robot_valid(r) {
                before.push(Some(r))
            } else {
                before
            },
        }
    }
}

/// What a walk over all match records of a store yields.
pub open spec fn match_listing(store: DatabaseView) -> Seq<Option<MatchInfoView>> {
    list_matches(store.matches, sorted_keys(store.matches.dom()))
}

/// What a walk over all pit visits of a store yields.
pub open spec fn robot_listing(store: DatabaseView) -> Seq<Option<RobotInfoView>> {
    list_robots(store.robots, sorted_keys(store.robots.dom()))
}

/// What a list of results holds: each record, and nothing in the place of a
/// failure.
pub open spec fn match_results(list: Seq<Result<MatchInfo, DatabaseError>>) -> Seq<
    Option<MatchInfoView>,
> {
    Seq::new(
        list.len(),
        |i: int|
            match list[i] {
                Ok(r) => Some(r@),
                Err(_) => None,
            },
    )
}

/// What a list of results holds: each visit, and nothing in the place of a
/// failure.
pub open spec fn robot_results(list: Seq<Result<RobotInfo, DatabaseError>>) -> Seq<
    Option<RobotInfoView>,
> {
    Seq::new(
        list.len(),
        |i: int|
            match list[i] {
                Ok(r) => Some(r@),
                Err(_) => None,
            },
    )
}

/// The match record that stored bytes hold.
fn read_match(bytes: &Vec<u8>) -> (res: Result<MatchInfo, DatabaseError>)
    ensures
        res is Ok <==> stored_match(bytes@) is Some,
        res matches Ok(r) ==> stored_match(bytes@) == Some(r@),
        res matches Err(e) ==> !(e is Sled),
{
    match decode_match_fields(bytes) {
        Ok(fields) => match match_of_fields(fields) {
            Some(r) => Ok(r),
            None => Err(DatabaseError::Malformed),
        },
        Err(e) => Err(DatabaseError::Serde(e)),
    }
}

/// The pit visit that stored bytes hold.
fn read_robot(bytes: &Vec<u8>) -> (res: Result<RobotInfo, DatabaseError>)
    ensures
        res is Ok <==> stored_visit(bytes@) is Some,
        res matches Ok(r) ==> stored_visit(bytes@) == Some(r@),
        res matches Err(e) ==> !(e is Sled),
{
    match decode_visit_fields(bytes) {
        Ok(fields) => match visit_of_fields(fields) {
            Some(r) => Ok(r),
            None => Err(DatabaseError::Malformed),
        },
        Err(e) => Err(DatabaseError::Serde(e)),
    }
}

impl Database {
    /// Every valid match record of the store, in the order in which the
    /// backend walks their keys. Stored bytes that are no record yield a
    /// failure in their place, and the walk goes on. A failure of the backend
    /// ends the walk.
    pub fn get_all_matches(&self) -> (res: Result<Vec<Result<MatchInfo, DatabaseError>>, DatabaseError>)
        ensures
            res matches Ok(list) ==> match_results(list@) == match_listing(self@),
            res matches Ok(list) ==> forall|i: int|
                0 <= i < list@.len() ==> ((#[trigger] list@[i]) matches Err(e) ==> !(e is Sled)),
            res matches Err(e) ==> e is Sled,
    {
        let prefix: Vec<u8> = vec![109u8, 97u8, 116u8, 99u8, 104u8, 95u8];
        assert(prefix@ =~= match_prefix());
        let entries = match from_backend(backend_scan(&self.backend, &prefix)) {
            Ok(entries) => entries,
            Err(e) => {
                return Err(e);
            },
        };
        let ghost contents = backend_contents(self.backend);
        let ghost store = self@;
        let ghost order = entry_keys(entries@);
        proof {
            assert(store.matches.dom() =~= keys_under(contents, match_prefix()));
            lemma_one_listing(order, sorted_keys(store.matches.dom()), store.matches.dom());
        }
        let mut list: Vec<Result<MatchInfo, DatabaseError>> = Vec::new();
        let mut i: usize = 0;
        assert(order.take(0) =~= Seq::empty());
        assert(match_results(list@) =~= Seq::empty());
        while i < entries.len()
            invariant
                i <= entries.len(),
                order == entry_keys(entries@),
                store == model_of(contents),
                store.matches.dom() == keys_under(contents, match_prefix()),
                forall|key: Seq<u8>| order.contains(key) <==> store.matches.dom().contains(key),
                forall|k: int|
                    0 <= k < entries@.len() ==> (#[trigger] entries@[k]).1@
                        == contents[entries@[k].0@],
                match_results(list@) == list_matches(store.matches, order.take(i as int)),
                forall|k: int|
                    0 <= k < list@.len() ==> ((#[trigger] list@[k]) matches Err(e) ==> !(e
                        is Sled)),
            decreases entries.len() - i,
        {
            let ghost before = list@;
            proof {
                assert(order.take(i + 1).drop_last() =~= order.take(i as int));
                assert(order.take(i + 1).last() == order[i as int]);
                assert(order[i as int] == entries@[i as int].0@);
                assert(order.contains(order[i as int]));
                assert(store.matches[order[i as int]] == stored_match(contents[order[i as int]]));
            }
            match read_match(&entries[i].1) {
                Ok(r) => {
                    if is_match_valid(&r) {
                        let ghost v = r@;
                        list.push(Ok(r));
                        assert(match_results(list@) =~= match_results(before).push(Some(v)));
                    }
                },
                Err(e) => {
                    list.push(Err(e));
                    assert(match_results(list@) =~= match_results(before).push(None));
                },
            }
            i += 1;
        }
        assert(order.take(i as int) =~= order);
        Ok(list)
    }

    /// Every valid pit visit of the store, as `get_all_matches` yields the
    /// match records.
    pub fn get_all_robots(&self) -> (res: Result<Vec<Result<RobotInfo, DatabaseError>>, DatabaseError>)
        ensures
            res matches Ok(list) ==> robot_results(list@) == robot_listing(self@),
            res matches Ok(list) ==> forall|i: int|
                0 <= i < list@.len() ==> ((#[trigger] list@[i]) matches Err(e) ==> !(e is Sled)),
            res matches Err(e) ==> e is Sled,
    {
        let prefix: Vec<u8> = vec![114u8, 111u8, 98u8, 111u8, 116u8, 95u8];
        assert(prefix@ =~= robot_prefix());
        let entries = match from_backend(backend_scan(&self.backend, &prefix)) {
            Ok(entries) => entries,
            Err(e) => {
                return Err(e);
            },
        };
        let ghost contents = backend_contents(self.backend);
        let ghost store = self@;
        let ghost order = entry_keys(entries@);
        proof {
            assert(store.robots.dom() =~= keys_under(contents, robot_prefix()));
            lemma_one_listing(order, sorted_keys(store.robots.dom()), store.robots.dom());
        }
        let mut list: Vec<Result<RobotInfo, DatabaseError>> = Vec::new();
        let mut i: usize = 0;
        assert(order.take(0) =~= Seq::empty());
        assert(robot_results(list@) =~= Seq::empty());
        while i < entries.len()
            invariant
                i <= entries.len(),
                order == entry_keys(entries@),
                store == model_of(contents),
                store.robots.dom() == keys_under(contents, robot_prefix()),
                forall|key: Seq<u8>| order.contains(key) <==> store.robots.dom().contains(key),
                forall|k: int|
                    0 <= k < entries@.len() ==> (#[trigger] entries@[k]).1@
                        == contents[entries@[k].0@],
                robot_results(list@) == list_robots(store.robots, order.take(i as int)),
                forall|k: int|
                    0 <= k < list@.len() ==> ((#[trigger] list@[k]) matches Err(e) ==> !(e
                        is Sled)),
            decreases entries.len() - i,
        {
            let ghost before = list@;
            proof {
                assert(order.take(i + 1).drop_last() =~= order.take(i as int));
                assert(order.take(i + 1).last() == order[i as int]);
                assert(order[i as int] == entries@[i as int].0@);
                assert(order.contains(order[i as int]));
                assert(store.robots[order[i as int]] == stored_visit(contents[order[i as int]]));
            }
            match read_robot(&entries[i].1) {
                Ok(r) => {
                    if is_robot_valid(&r) {
                        let ghost v = r@;
                        list.push(Ok(r));
                        assert(robot_results(list@) =~= robot_results(before).push(Some(v)));
                    }
                },
                Err(e) => {
                    list.push(Err(e));
                    assert(robot_results(list@) =~= robot_results(before).push(None));
                },
            }
            i += 1;
        }
        assert(order.take(i as int) =~= order);
        Ok(list)
    }
}

/// The records of a listing without the places of failures.
pub open spec fn present<T>(listing: Seq<Option<T>>) -> Seq<T>
    decreases listing.len(),
{
    if listing.len() == 0 {
        Seq::empty()
    } else {
        match listing.last() {
            Some(r) => present(listing.drop_last()).push(r),
            None => present(listing.drop_last()),
        }
    }
}

/// The records of both kinds in one list, match records first.
pub open spec fn as_infos(matches: Seq<MatchInfoView>, robots: Seq<RobotInfoView>) -> Seq<InfoView> {
    Seq::new(matches.len(), |i: int| InfoView::MatchInfo(matches[i])) + Seq::new(
        robots.len(),
        |i: int| InfoView::RobotInfo(robots[i]),
    )
}

/// What the store holds at one moment: every valid record that could be
/// read.
#[derive(Debug)]
pub struct Snapshot {
    pub matches: Vec<MatchInfo>,
    pub robots: Vec<RobotInfo>,
}

/// The match records among results, in their order.
pub fn present_matches(list: Vec<Result<MatchInfo, DatabaseError>>) -> (out: Vec<MatchInfo>)
    ensures
        match_views(out@) == present(match_results(list@)),
{
    let ghost items = list@;
    let ghost all = match_results(list@);
    let mut out: Vec<MatchInfo> = Vec::new();
    assert(all.take(0) =~= Seq::empty());
    assert(match_views(out@) =~= Seq::empty());
    for item in it: list
        invariant
            it.seq() == items,
            all == match_results(items),
            match_views(out@) == present(all.take(it.index() as int)),
    {
        let ghost before = out@;
        proof {
            let i = it.index() as int;
            assert(all.take(i + 1).drop_last() =~= all.take(i));
            assert(all.take(i + 1).last() == all[i]);
        }
        match item {
            Ok(r) => {
                let ghost v = r@;
                out.push(r);
                assert(match_views(out@) =~= match_views(before).push(v));
            },
            Err(_) => {},
        }
    }
    assert(all.take(items.len() as int) =~= all);
    out
}

/// The pit visits among results, in their order.
pub fn present_robots(list: Vec<Result<RobotInfo, DatabaseError>>) -> (out: Vec<RobotInfo>)
    ensures
        robot_views(out@) == present(robot_results(list@)),
{
    let ghost items = list@;
    let ghost all = robot_results(list@);
    let mut out: Vec<RobotInfo> = Vec::new();
    assert(all.take(0) =~= Seq::empty());
    assert(robot_views(out@) =~= Seq::empty());
    for item in it: list
        invariant
            it.seq() == items,
            all == robot_results(items),
            robot_views(out@) == present(all.take(it.index() as int)),
    {
        let ghost before = out@;
        proof {
            let i = it.index() as int;
            assert(all.take(i + 1).drop_last() =~= all.take(i));
            assert(all.take(i + 1).last() == all[i]);
        }
        match item {
            Ok(r) => {
                let ghost v = r@;
                out.push(r);
                assert(robot_views(out@) =~= robot_views(before).push(v));
            },
            Err(_) => {},
        }
    }
    assert(all.take(items.len() as int) =~= all);
    out
}

/// A listing without a failure is the list of its records.
pub proof fn lemma_present_of_all<T>(listing: Seq<Option<T>>)
    requires
        forall|i: int| 0 <= i < listing.len() ==> (#[trigger] listing[i]) is Some,
    ensures
        present(listing).len() == listing.len(),
        forall|i: int| 0 <= i < listing.len() ==> Some(#[trigger] present(listing)[i]) == listing[i],
    decreases listing.len(),
{
    if listing.len() > 0 {
        let before = listing.drop_last();
        assert(forall|i: int| 0 <= i < before.len() ==> before[i] == listing[i]);
        lemma_present_of_all(before);
        assert(listing.last() == listing[listing.len() - 1]);
    }
}

impl Database {
    /// Every valid record that can be read, of both kinds. Stored bytes that
    /// are no record are passed over.
    pub fn snapshot(&self) -> (res: Result<Snapshot, DatabaseError>)
        ensures
            res matches Ok(s) ==> match_views(s.matches@) == present(match_listing(self@))
                && robot_views(s.robots@) == present(robot_listing(self@)),
            res matches Err(e) ==> e is Sled,
    {
        let matches = match self.get_all_matches() {
            Ok(list) => present_matches(list),
            Err(e) => {
                return Err(e);
            },
        };
        let robots = match self.get_all_robots() {
            Ok(list) => present_robots(list),
            Err(e) => {
                return Err(e);
            },
        };
        Ok(Snapshot { matches, robots })
    }

    /// Every valid record of the store as exchanged between servers, match
    /// records first. Fails where the backend fails, and where stored bytes
    /// are no record.
    pub fn get_info_list(&self) -> (res: Result<Vec<Info>, DatabaseError>)
        ensures
            res matches Ok(list) ==> info_views(list@) == as_infos(
                present(match_listing(self@)),
                present(robot_listing(self@)),
            ) && !match_listing(self@).contains(None) && !robot_listing(self@).contains(None),
            res matches Err(e) ==> e is Sled || match_listing(self@).contains(None)
                || robot_listing(self@).contains(None),
    {
        let matches = match self.get_all_matches() {
            Ok(list) => list,
            Err(e) => {
                return Err(e);
            },
        };
        let robots = match self.get_all_robots() {
            Ok(list) => list,
            Err(e) => {
                return Err(e);
            },
        };
        let ghost match_items = matches@;
        let ghost robot_items = robots@;
        let ghost ml = match_listing(self@);
        let ghost rl = robot_listing(self@);
        let mut list: Vec<Info> = Vec::new();
        for item in it: matches
            invariant
                it.seq() == match_items,
                ml == match_results(match_items),
                ml == match_listing(self@),
                forall|i: int|
                    0 <= i < match_items.len() ==> ((#[trigger] match_items[i]) matches Err(e)
                        ==> !(e is Sled)),
                list@.len() == it.index(),
                forall|i: int| 0 <= i < it.index() ==> ml[i] is Some,
                forall|i: int|
                    0 <= i < it.index() ==> (#[trigger] list@[i])@ == InfoView::MatchInfo(
                        ml[i].unwrap(),
                    ),
        {
            let ghost before = list@;
            let ghost i = it.index() as int;
            match item {
                Ok(r) => {
                    assert(ml[i] == Some(r@));
                    list.push(Info::MatchInfo(r));
                    assert(forall|k: int| 0 <= k < i ==> list@[k] == before[k]);
                },
                Err(e) => {
                    assert(ml[i] is None);
                    assert(ml.contains(None));
                    return Err(e);
                },
            }
        }
        let ghost n = match_items.len() as int;
        for item in it: robots
            invariant
                it.seq() == robot_items,
                rl == robot_results(robot_items),
                rl == robot_listing(self@),
                ml.len() == n,
                forall|i: int|
                    0 <= i < robot_items.len() ==> ((#[trigger] robot_items[i]) matches Err(e)
                        ==> !(e is Sled)),
                list@.len() == n + it.index(),
                forall|i: int| 0 <= i < n ==> ml[i] is Some,
                forall|i: int|
                    0 <= i < n ==> (#[trigger] list@[i])@ == InfoView::MatchInfo(ml[i].unwrap()),
                forall|i: int| 0 <= i < it.index() ==> rl[i] is Some,
                forall|i: int|
                    0 <= i < it.index() ==> (#[trigger] list@[n + i])@ == InfoView::RobotInfo(
                        rl[i].unwrap(),
                    ),
        {
            let ghost before = list@;
            let ghost i = it.index() as int;
            match item {
                Ok(r) => {
                    assert(rl[i] == Some(r@));
                    list.push(Info::RobotInfo(r));
                    assert(forall|k: int| 0 <= k < n + i ==> list@[k] == before[k]);
                    assert forall|k: int| 0 <= k < i + 1 implies (#[trigger] list@[n + k])@
                        == InfoView::RobotInfo(rl[k].unwrap()) by {
                        if k < i {
                            assert(list@[n + k] == before[n + k]);
                        }
                    }
                },
                Err(e) => {
                    assert(rl[i] is None);
                    assert(rl.contains(None));
                    return Err(e);
                },
            }
        }
        proof {
            lemma_present_of_all(ml);
            lemma_present_of_all(rl);
            let want = as_infos(present(ml), present(rl));
            assert(info_views(list@) =~= want) by {
                assert forall|k: int| 0 <= k < list@.len() implies info_views(list@)[k] == want[k] by {
                    if k < n {
                    } else {
                        assert(list@[n + (k - n)]@ == InfoView::RobotInfo(rl[k - n].unwrap()));
                    }
                }
            }
            assert(!ml.contains(None)) by {
                if ml.contains(None) {
                    let k = choose|k: int| 0 <= k < ml.len() && ml[k] == None::<MatchInfoView>;
                    assert(ml[k] is Some);
                }
            }
            assert(!rl.contains(None)) by {
                if rl.contains(None) {
                    let k = choose|k: int| 0 <= k < rl.len() && rl[k] == None::<RobotInfoView>;
                    assert(rl[k] is Some);
                }
            }
        }
        Ok(list)
    }
}

} // verus!
