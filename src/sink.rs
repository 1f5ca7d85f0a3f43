//! The twin-sink shipping step: the bulk-indexing body of a batch, the key of
//! its archival object, and the order and retries of the two writes.
use vstd::prelude::*;
use vstd::utf8::{decode_utf8, valid_utf8};
use crate::lease::texts;
use chrono::{Datelike, Timelike};

verus! {

/// The index token that names every hourly index.
pub const INDEX_PREFIX: &'static str = "index_name";

/// The last second of year 9999, as seconds since the Unix epoch.
pub const MAX_UNIX_SECONDS: i64 = 253402300799;

/// A UTC instant to the second, in calendar fields.
#[derive(PartialEq, Eq, Structural, Clone, Copy, Debug)]
pub struct UtcTime {
    pub year: u32,
    pub month: u32,
    pub day: u32,
    pub hour: u32,
    pub minute: u32,
    pub second: u32,
}

impl UtcTime {
    pub open spec fn wf(&self) -> bool {
        &&& self.year <= 9999
        &&& 1 <= self.month <= 12
        &&& 1 <= self.day <= 31
        &&& self.hour < 24
        &&& self.minute < 60
        &&& self.second < 60
    }
}

/// The proleptic Gregorian date (year, month, day) of day `days` counted
/// from 1970-01-01 (for `days >= 0`): days are counted in 400-year eras of
/// years that begin on March 1st, so that the leap day ends each year.
pub open spec fn civil_date_of(days: int) -> (int, int, int) {
    let z = days + 719468;
    let era = z / 146097;
    let doe = z - era * 146097;
    let yoe = (doe - doe / 1460 + doe / 36524 - doe / 146096) / 365;
    let doy = doe - (365 * yoe + yoe / 4 - yoe / 100);
    let mp = (5 * doy + 2) / 153;
    let d = doy - (153 * mp + 2) / 5 + 1;
    let m = if mp < 10 {
        mp + 3
    } else {
        mp - 9
    };
    let y = yoe + era * 400;
    (if m <= 2 {
        y + 1
    } else {
        y
    }, m, d)
}

/// The calendar fields of a Unix timestamp.
pub open spec fn utc_time_of(unix_seconds: int) -> UtcTime {
    let (y, mo, d) = civil_date_of(unix_seconds / 86400);
    UtcTime {
        year: y as u32,
        month: mo as u32,
        day: d as u32,
        hour: ((unix_seconds % 86400) / 3600) as u32,
        minute: ((unix_seconds % 3600) / 60) as u32,
        second: (unix_seconds % 60) as u32,
    }
}

/// Relies on chrono's `DateTime::from_timestamp` and its `Datelike` and
/// `Timelike` accessors: the UTC calendar fields of a Unix timestamp.
#[verifier::external_body]
fn utc_fields(unix_seconds: i64) -> (t: UtcTime)
    requires
        0 <= unix_seconds <= MAX_UNIX_SECONDS,
    ensures
        t.wf(),
        1970 <= t.year,
        t == utc_time_of(unix_seconds as int),
{
    let dt = chrono::DateTime::from_timestamp(unix_seconds, 0).unwrap();
    UtcTime {
        year: dt.year() as u32,
        month: dt.month(),
        day: dt.day(),
        hour: dt.hour(),
        minute: dt.minute(),
        second: dt.second(),
    }
}

/// The calendar fields of a Unix timestamp, or absent outside years
/// 1970 to 9999.
pub fn utc_time(unix_seconds: i64) -> (r: Option<UtcTime>)
    ensures
        r is Some <==> 0 <= unix_seconds <= MAX_UNIX_SECONDS,
        r matches Some(t) ==> {
            &&& t.wf()
            &&& t == utc_time_of(unix_seconds as int)
        },
{
    if 0 <= unix_seconds && unix_seconds <= MAX_UNIX_SECONDS {
        Some(utc_fields(unix_seconds))
    } else {
        None
    }
}

pub open spec fn digit(d: int) -> char {
    if d == 0 {
        '0'
    } else if d == 1 {
        '1'
    } else if d == 2 {
        '2'
    } else if d == 3 {
        '3'
    } else if d == 4 {
        '4'
    } else if d == 5 {
        '5'
    } else if d == 6 {
        '6'
    } else if d == 7 {
        '7'
    } else if d == 8 {
        '8'
    } else {
        '9'
    }
}

/// `n` in two decimal digits, zero-padded.
pub open spec fn two_digits(n: int) -> Seq<char> {
    seq![digit(n / 10), digit(n % 10)]
}

/// `n` in four decimal digits, zero-padded.
pub open spec fn four_digits(n: int) -> Seq<char> {
    seq![digit(n / 1000), digit((n / 100) % 10), digit((n / 10) % 10), digit(n % 10)]
}

/// `<index>_<YYYY_MM_DD_HH>`: the index of the hour of `t`.
pub open spec fn index_name_of(t: UtcTime) -> Seq<char> {
    INDEX_PREFIX@ + seq!['_'] + four_digits(t.year as int) + seq!['_'] + two_digits(t.month as int) + seq!['_']
        + two_digits(t.day as int) + seq!['_'] + two_digits(t.hour as int)
}

/// `YYYY/MM/DD/HH/MM/SS/<id>.json`: the archival key at `t`.
pub open spec fn archive_key_of(t: UtcTime, id: Seq<char>) -> Seq<char> {
    four_digits(t.year as int) + seq!['/'] + two_digits(t.month as int) + seq!['/'] + two_digits(t.day as int)
        + seq!['/'] + two_digits(t.hour as int) + seq!['/'] + two_digits(t.minute as int) + seq!['/']
        + two_digits(t.second as int) + seq!['/'] + id + ".json"@
}

/// The action line of one record.
pub open spec fn frame_header(index: Seq<char>) -> Seq<char> {
    "{\"index\": {\"_index\": \""@ + index + "\", \"_type\": \"_doc\"} }"@
}

/// For each document in order: its action line and the document, each
/// ended by a newline.
pub open spec fn frames(index: Seq<char>, docs: Seq<Seq<char>>) -> Seq<char>
    decreases docs.len(),
{
    if docs.len() == 0 {
        Seq::empty()
    } else {
        frames(index, docs.drop_last()) + frame_header(index) + seq!['\n'] + docs.last() + seq!['\n']
    }
}

/// The bulk-indexing body: all lines joined by newlines, then a trailing
/// newline (so an empty batch gives a lone newline).
pub open spec fn bulk_body_of(index: Seq<char>, docs: Seq<Seq<char>>) -> Seq<char> {
    if docs.len() == 0 {
        seq!['\n']
    } else {
        frames(index, docs)
    }
}

fn digit_text(d: u32) -> (r: &'static str)
    requires
        d < 10,
    ensures
        r@ == seq![digit(d as int)],
{
    proof {
        reveal_strlit("0");
        reveal_strlit("1");
        reveal_strlit("2");
        reveal_strlit("3");
        reveal_strlit("4");
        reveal_strlit("5");
        reveal_strlit("6");
        reveal_strlit("7");
        reveal_strlit("8");
        reveal_strlit("9");
    }
    if d == 0 {
        "0"
    } else if d == 1 {
        "1"
    } else if d == 2 {
        "2"
    } else if d == 3 {
        "3"
    } else if d == 4 {
        "4"
    } else if d == 5 {
        "5"
    } else if d == 6 {
        "6"
    } else if d == 7 {
        "7"
    } else if d == 8 {
        "8"
    } else {
        "9"
    }
}

fn push_two_digits(s: &mut String, n: u32)
    requires
        n < 100,
    ensures
        final(s)@ == old(s)@ + two_digits(n as int),
{
    s.append(digit_text(n / 10));
    s.append(digit_text(n % 10));
}

fn push_four_digits(s: &mut String, n: u32)
    requires
        n < 10000,
    ensures
        final(s)@ == old(s)@ + four_digits(n as int),
{
    s.append(digit_text(n / 1000));
    s.append(digit_text((n / 100) % 10));
    s.append(digit_text((n / 10) % 10));
    s.append(digit_text(n % 10));
}

/// The hourly index name at `t`.
pub fn index_name(t: &UtcTime) -> (r: String)
    requires
        t.wf(),
    ensures
        r@ == index_name_of(*t),
{
    let mut s = String::from_str(INDEX_PREFIX);
    s.append("_");
    push_four_digits(&mut s, t.year);
    s.append("_");
    push_two_digits(&mut s, t.month);
    s.append("_");
    push_two_digits(&mut s, t.day);
    s.append("_");
    push_two_digits(&mut s, t.hour);
    proof { reveal_strlit("_"); }
    assert(s@ =~= index_name_of(*t));
    s
}

/// The archival key of an object written at `t` under `object_id`.
pub fn archive_key(t: &UtcTime, object_id: &str) -> (r: String)
    requires
        t.wf(),
    ensures
        r@ == archive_key_of(*t, object_id@),
{
    let mut s = String::new();
    push_four_digits(&mut s, t.year);
    s.append("/");
    push_two_digits(&mut s, t.month);
    s.append("/");
    push_two_digits(&mut s, t.day);
    s.append("/");
    push_two_digits(&mut s, t.hour);
    s.append("/");
    push_two_digits(&mut s, t.minute);
    s.append("/");
    push_two_digits(&mut s, t.second);
    s.append("/");
    s.append(object_id);
    s.append(".json");
    proof { reveal_strlit("/"); }
    assert(s@ =~= archive_key_of(*t, object_id@));
    s
}

/// The bulk-indexing body of `docs` for the index `index`.
pub fn bulk_body(index: &str, docs: &Vec<String>) -> (r: String)
    ensures
        r@ == bulk_body_of(index@, texts(docs@)),
{
    if docs.len() == 0 {
        proof { reveal_strlit("\n"); }
        return String::from_str("\n");
    }
    let mut s = String::new();
    let mut i: usize = 0;
    while i < docs.len()
        invariant
            i <= docs@.len(),
            s@ == frames(index@, texts(docs@).take(i as int)),
        decreases docs@.len() - i,
    {
        let ghost d1 = texts(docs@).take(i + 1);
        assert(d1.drop_last() =~= texts(docs@).take(i as int));
        s.append("{\"index\": {\"_index\": \"");
        s.append(index);
        s.append("\", \"_type\": \"_doc\"} }");
        s.append("\n");
        s.append(docs[i].as_str());
        s.append("\n");
        proof { reveal_strlit("\n"); }
        assert(s@ =~= frames(index@, d1));
        i = i + 1;
    }
    assert(texts(docs@).take(docs@.len() as int) =~= texts(docs@));
    s
}

/// Relies on std's `String::from_utf8`: it accepts exactly the valid UTF-8
/// byte strings and keeps their characters.
#[verifier::external_body]
fn utf8_text(bytes: &Vec<u8>) -> (r: Option<String>)
    ensures
        r is Some <==> valid_utf8(bytes@),
        r matches Some(s) ==> s@ == decode_utf8(bytes@),
{
    String::from_utf8(bytes.clone()).ok()
}

pub open spec fn all_utf8(records: Seq<Vec<u8>>) -> bool {
    forall|i: int| 0 <= i < records.len() ==> valid_utf8(#[trigger] records[i]@)
}

/// The text of each record.
pub open spec fn decoded(records: Seq<Vec<u8>>) -> Seq<Seq<char>> {
    records.map_values(|b: Vec<u8>| decode_utf8(b@))
}

/// The records' payloads as text, or absent when one is not UTF-8.
pub fn decode_records(records: &Vec<Vec<u8>>) -> (r: Option<Vec<String>>)
    ensures
        r is Some <==> all_utf8(records@),
        r matches Some(d) ==> texts(d@) == decoded(records@),
{
    let mut d: Vec<String> = Vec::new();
    let mut i: usize = 0;
    while i < records.len()
        invariant
            i <= records@.len(),
            d@.len() == i,
            all_utf8(records@.take(i as int)),
            texts(d@) == decoded(records@.take(i as int)),
        decreases records@.len() - i,
    {
        match utf8_text(&records[i]) {
            Some(t) => {
                let ghost before = d@;
                let ghost tv = t@;
                d.push(t);
                assert(d@ == before.push(t));
                assert(tv == decode_utf8(records@[i as int]@));
                assert forall|j: int| 0 <= j < i + 1 implies #[trigger] texts(d@)[j] == decoded(records@.take(i + 1))[j] by {
                    if j < i {
                        assert(texts(before)[j] == decoded(records@.take(i as int))[j]);
                        assert(records@.take(i as int)[j] == records@.take(i + 1)[j]);
                    } else {
                        assert(records@.take(i + 1)[j] == records@[i as int]);
                    }
                }
                assert(texts(d@) =~= decoded(records@.take(i + 1)));
                assert(all_utf8(records@.take(i + 1))) by {
                    assert forall|j: int| 0 <= j < i + 1 implies valid_utf8(#[trigger] records@.take(i + 1)[j]@) by {
                        if j < i {
                            assert(records@.take(i as int)[j] == records@.take(i + 1)[j]);
                        }
                    }
                }
            },
            None => {
                assert(!valid_utf8(records@[i as int]@));
                return None;
            },
        }
        i = i + 1;
    }
    assert(records@.take(records@.len() as int) =~= records@);
    Some(d)
}

/// One batch ready for the sinks: the archival key and the body.
pub struct Shipment {
    pub key: String,
    pub body: String,
}

/// The shipment of `records` at `t` under `object_id`, or absent when a
/// payload is not UTF-8.
pub fn shipment_at(t: &UtcTime, object_id: &str, records: &Vec<Vec<u8>>) -> (r: Option<Shipment>)
    requires
        t.wf(),
    ensures
        r is Some <==> all_utf8(records@),
        r matches Some(s) ==> {
            &&& s.key@ == archive_key_of(*t, object_id@)
            &&& s.body@ == bulk_body_of(index_name_of(*t), decoded(records@))
        },
{
    match decode_records(records) {
        Some(docs) => {
            let index = index_name(t);
            let body = bulk_body(index.as_str(), &docs);
            let key = archive_key(t, object_id);
            Some(Shipment { key, body })
        },
        None => None,
    }
}

pub open spec fn is_lower_hex(c: char) -> bool {
    ('0' <= c && c <= '9') || ('a' <= c && c <= 'f')
}

/// Hyphenated lower-case UUID text: 8-4-4-4-12 hex digits.
pub open spec fn is_uuid_text(s: Seq<char>) -> bool {
    &&& s.len() == 36
    &&& forall|i: int|
        0 <= i < 36 ==> if i == 8 || i == 13 || i == 18 || i == 23 {
            s[i] == '-'
        } else {
            is_lower_hex(#[trigger] s[i])
        }
}

/// Relies on uuid's `Uuid::new_v4` and its `Display`, which writes the
/// hyphenated lower-case form: a random identifier in 8-4-4-4-12 hex.
#[verifier::external_body]
fn fresh_object_id() -> (r: String)
    ensures
        is_uuid_text(r@),
{
    uuid::Uuid::new_v4().to_string()
}

/// The shipment of `records` at `unix_seconds` under a fresh identifier:
/// absent when a payload is not UTF-8 or the time is outside years 1970 to
/// 9999.
pub fn prepare_shipment(records: &Vec<Vec<u8>>, unix_seconds: i64) -> (r: Option<Shipment>)
    ensures
        r is Some <==> all_utf8(records@) && 0 <= unix_seconds <= MAX_UNIX_SECONDS,
        r matches Some(s) ==> {
            &&& s.body@ == bulk_body_of(index_name_of(utc_time_of(unix_seconds as int)), decoded(records@))
            &&& exists|id: Seq<char>| is_uuid_text(id) && s.key@ == archive_key_of(utc_time_of(unix_seconds as int), id)
        },
{
    match utc_time(unix_seconds) {
        Some(t) => {
            let id = fresh_object_id();
            let r = shipment_at(&t, id.as_str(), records);
            match &r {
                Some(s) => {
                    assert(is_uuid_text(id@) && s.key@ == archive_key_of(utc_time_of(unix_seconds as int), id@));
                },
                None => {},
            }
            r
        },
        None => None,
    }
}

pub open spec fn newline_count(s: Seq<char>) -> nat
    decreases s.len(),
{
    if s.len() == 0 {
        0
    } else {
        newline_count(s.drop_last()) + if s.last() == '\n' {
            1nat
        } else {
            0nat
        }
    }
}

proof fn lemma_newline_count_concat(a: Seq<char>, b: Seq<char>)
    ensures
        newline_count(a + b) == newline_count(a) + newline_count(b),
    decreases b.len(),
{
    if b.len() == 0 {
        assert(a + b =~= a);
    } else {
        assert((a + b).drop_last() =~= a + b.drop_last());
        lemma_newline_count_concat(a, b.drop_last());
    }
}

proof fn lemma_no_newline(s: Seq<char>)
    requires
        !s.contains('\n'),
    ensures
        newline_count(s) == 0,
    decreases s.len(),
{
    if s.len() > 0 {
        assert(s.last() == s[s.len() - 1]);
        assert(!s.drop_last().contains('\n')) by {
            if s.drop_last().contains('\n') {
                let j = choose|j: int| 0 <= j < s.drop_last().len() && s.drop_last()[j] == '\n';
                assert(s[j] == '\n');
            }
        }
        lemma_no_newline(s.drop_last());
    }
}

proof fn lemma_frames_lines(index: Seq<char>, docs: Seq<Seq<char>>)
    requires
        newline_count(frame_header(index)) == 0,
        forall|i: int| 0 <= i < docs.len() ==> !(#[trigger] docs[i]).contains('\n'),
    ensures
        newline_count(frames(index, docs)) == 2 * docs.len(),
        docs.len() > 0 ==> frames(index, docs).last() == '\n',
    decreases docs.len(),
{
    if docs.len() > 0 {
        lemma_frames_lines(index, docs.drop_last());
        let prev = frames(index, docs.drop_last());
        let h = frame_header(index);
        let d = docs.last();
        assert(!docs[docs.len() - 1].contains('\n'));
        lemma_no_newline(d);
        lemma_newline_count_concat(prev, h);
        lemma_newline_count_concat(prev + h, seq!['\n']);
        lemma_newline_count_concat(prev + h + seq!['\n'], d);
        lemma_newline_count_concat(prev + h + seq!['\n'] + d, seq!['\n']);
        assert(newline_count(seq!['\n']) == 1) by {
            assert(seq!['\n'].drop_last() =~= Seq::<char>::empty());
            assert(newline_count(Seq::<char>::empty()) == 0);
        }
    }
}

/// A batch of N records, none of whose payloads holds a newline, gives a
/// body of exactly 2N lines followed by a trailing empty line: 2N newline
/// characters, the last character among them.
pub proof fn lemma_bulk_body_lines(index: Seq<char>, docs: Seq<Seq<char>>)
    requires
        docs.len() >= 1,
        !index.contains('\n'),
        forall|i: int| 0 <= i < docs.len() ==> !(#[trigger] docs[i]).contains('\n'),
    ensures
        newline_count(bulk_body_of(index, docs)) == 2 * docs.len(),
        bulk_body_of(index, docs).last() == '\n',
{
    reveal_strlit("{\"index\": {\"_index\": \"");
    reveal_strlit("\", \"_type\": \"_doc\"} }");
    let a = "{\"index\": {\"_index\": \""@;
    let b = "\", \"_type\": \"_doc\"} }"@;
    assert(!a.contains('\n'));
    assert(!b.contains('\n'));
    lemma_no_newline(a);
    lemma_no_newline(b);
    lemma_no_newline(index);
    lemma_newline_count_concat(a, index);
    lemma_newline_count_concat(a + index, b);
    lemma_frames_lines(index, docs);
}

/// The body depends on the time only through its hour: two shipments of
/// the same records within one UTC hour carry the same bytes.
pub proof fn lemma_body_fixed_within_hour(t1: UtcTime, t2: UtcTime, docs: Seq<Seq<char>>)
    requires
        t1.year == t2.year,
        t1.month == t2.month,
        t1.day == t2.day,
        t1.hour == t2.hour,
    ensures
        bulk_body_of(index_name_of(t1), docs) == bulk_body_of(index_name_of(t2), docs),
{
}

/// Attempts at the bulk-indexing POST: the first and five retries.
pub const SEARCH_ATTEMPTS: u32 = 6;

/// Pause between two attempts at either sink, in milliseconds.
pub const SINK_RETRY_PAUSE_MILLIS: u64 = 1000;

/// The next write of a shipment.
#[derive(PartialEq, Eq, Structural, Clone, Copy, Debug)]
pub enum ShipCommand {
    /// Write the body to the object store under the shipment's key.
    PutObject,
    /// POST the body to the bulk-indexing endpoint.
    PostBulk,
    /// The shipment is over: whether both sinks took the batch.
    Finish(bool),
}

/// A command and the pause to make before it.
#[derive(PartialEq, Eq, Structural, Clone, Copy, Debug)]
pub struct ShipStep {
    pub pause_millis: u64,
    pub command: ShipCommand,
}

#[derive(PartialEq, Eq, Structural, Clone, Copy, Debug)]
pub enum ShipStage {
    Archiving,
    Indexing,
    Finished,
}

/// The progress of one shipment: archival first, retried until it is
/// accepted; then the search backend, tried `SEARCH_ATTEMPTS` times at most.
#[derive(PartialEq, Eq, Structural, Clone, Copy, Debug)]
pub struct ShipRun {
    pub stage: ShipStage,
    /// POSTs made so far.
    pub posts: u32,
}

impl ShipRun {
    pub open spec fn wf(&self) -> bool {
        &&& self.posts <= SEARCH_ATTEMPTS
        &&& self.stage is Indexing ==> 1 <= self.posts
        &&& self.stage is Archiving ==> self.posts == 0
    }

    /// A shipment about to begin, and its first step: the archival write.
    pub fn start() -> (r: (ShipRun, ShipStep))
        ensures
            r.0.wf(),
            r.0 == (ShipRun { stage: ShipStage::Archiving, posts: 0 }),
            r.1 == (ShipStep { pause_millis: 0, command: ShipCommand::PutObject }),
    {
        (ShipRun { stage: ShipStage::Archiving, posts: 0 }, ShipStep { pause_millis: 0, command: ShipCommand::PutObject })
    }

    /// Whether the object store accepted the write: if not, write again
    /// after a pause; if so, go on to the search backend.
    pub fn on_archived(&mut self, accepted: bool) -> (step: ShipStep)
        requires
            old(self).wf(),
            old(self).stage is Archiving,
        ensures
            final(self).wf(),
            !accepted ==> *final(self) == *old(self)
                && step == (ShipStep { pause_millis: SINK_RETRY_PAUSE_MILLIS, command: ShipCommand::PutObject }),
            accepted ==> *final(self) == (ShipRun { stage: ShipStage::Indexing, posts: 1 })
                && step == (ShipStep { pause_millis: 0, command: ShipCommand::PostBulk }),
    {
        if accepted {
            self.stage = ShipStage::Indexing;
            self.posts = 1;
            ShipStep { pause_millis: 0, command: ShipCommand::PostBulk }
        } else {
            ShipStep { pause_millis: SINK_RETRY_PAUSE_MILLIS, command: ShipCommand::PutObject }
        }
    }

    /// Whether the search backend took the POST: success ends the shipment;
    /// a failure is retried after a pause until `SEARCH_ATTEMPTS` POSTs have
    /// been made, and then the shipment fails.
    pub fn on_posted(&mut self, accepted: bool) -> (step: ShipStep)
        requires
            old(self).wf(),
            old(self).stage is Indexing,
        ensures
            final(self).wf(),
            accepted ==> final(self).stage is Finished && final(self).posts == old(self).posts
                && step == (ShipStep { pause_millis: 0, command: ShipCommand::Finish(true) }),
            !accepted && old(self).posts < SEARCH_ATTEMPTS ==> final(self).stage is Indexing
                && final(self).posts == old(self).posts + 1
                && step == (ShipStep { pause_millis: SINK_RETRY_PAUSE_MILLIS, command: ShipCommand::PostBulk }),
            !accepted && old(self).posts == SEARCH_ATTEMPTS ==> final(self).stage is Finished
                && final(self).posts == old(self).posts
                && step == (ShipStep { pause_millis: 0, command: ShipCommand::Finish(false) }),
    {
        if accepted {
            self.stage = ShipStage::Finished;
            ShipStep { pause_millis: 0, command: ShipCommand::Finish(true) }
        } else if self.posts < SEARCH_ATTEMPTS {
            self.posts = self.posts + 1;
            ShipStep { pause_millis: SINK_RETRY_PAUSE_MILLIS, command: ShipCommand::PostBulk }
        } else {
            self.stage = ShipStage::Finished;
            ShipStep { pause_millis: 0, command: ShipCommand::Finish(false) }
        }
    }
}

} // verus!
