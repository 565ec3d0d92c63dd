//! The windowed uploader: readings are collected in a window, and every push
//! yields the whole window as one CSV object. Once the window has outgrown
//! the batch size, the next push starts a new window under the next key.

use crate::clock::utc_now_rfc3339;
use crate::text::{centi_text, decimal, is_field_text, join, push_centi, push_decimal};
use vstd::prelude::*;
use vstd::string::StringExecFns;

verus! {

/// Window length beyond which the next push rotates, unless configured
/// otherwise.
pub const BATCH_SIZE: usize = 1000;

/// One archived reading, as contracts see it.
pub struct Row {
    /// Temperature in hundredths of a degree Celsius.
    pub temp: int,
    /// Archival time, ISO-8601.
    pub time: Seq<char>,
}

/// One archived reading.
#[derive(Debug, PartialEq, Eq)]
pub struct Update {
    /// Temperature in hundredths of a degree Celsius.
    pub temp: i32,
    /// The time at which the reading was archived, ISO-8601.
    pub time: String,
}

impl View for Update {
    type V = Row;

    open spec fn view(&self) -> Row {
        Row { temp: self.temp as int, time: self.time@ }
    }
}

/// One object to write to the store, replacing what the key held.
#[derive(Debug, PartialEq, Eq)]
pub struct Upload {
    /// Bucket to write into.
    pub bucket: String,
    /// Key of the object.
    pub key: String,
    /// The object's content.
    pub body: String,
}

/// One object to write, as contracts see it.
pub struct UploadView {
    /// Bucket to write into.
    pub bucket: Seq<char>,
    /// Key of the object.
    pub key: Seq<char>,
    /// The object's content.
    pub body: Seq<char>,
}

impl View for Upload {
    type V = UploadView;

    open spec fn view(&self) -> UploadView {
        UploadView { bucket: self.bucket@, key: self.key@, body: self.body@ }
    }
}

/// The uploader's state, as contracts see it.
pub struct PusherView {
    /// Whether a destination is configured.
    pub enabled: bool,
    /// Destination bucket.
    pub bucket: Seq<char>,
    /// Directory of this run inside the bucket.
    pub prefix: Seq<char>,
    /// Rotation counter: the number in the current object's key.
    pub key: nat,
    /// The current window, oldest reading first.
    pub window: Seq<Row>,
    /// Window length beyond which the next push rotates.
    pub threshold: nat,
}

/// One CSV row: temperature, comma, timestamp.
pub open spec fn row_text(row: Row) -> Seq<char> {
    centi_text(row.temp) + seq![','] + row.time
}

/// The rows of a window in the order of the file: most recent first.
pub open spec fn rows_newest_first(window: Seq<Row>) -> Seq<Seq<char>> {
    Seq::new(window.len(), |i: int| row_text(window[window.len() - 1 - i]))
}

/// The content of the object that holds a window.
pub open spec fn body_text(window: Seq<Row>) -> Seq<char> {
    join(rows_newest_first(window), '\n')
}

/// The key of the object with rotation counter `key` in the run `prefix`.
pub open spec fn key_text(prefix: Seq<char>, key: nat) -> Seq<char> {
    prefix + seq!['/'] + decimal(key) + seq!['.', 'c', 's', 'v']
}

impl PusherView {
    /// The window has outgrown the batch size: the next push rotates.
    pub open spec fn rotation_due(self) -> bool {
        self.window.len() > self.threshold
    }

    /// The rotation counter has room for the next push.
    pub open spec fn can_push(self) -> bool {
        self.enabled && self.rotation_due() ==> self.key < u32::MAX
    }

    /// The state with a destination set: window, counter and batch size
    /// stay.
    pub open spec fn with_destination(self, bucket: Seq<char>, prefix: Seq<char>) -> PusherView {
        PusherView { enabled: true, bucket, prefix, ..self }
    }

    /// The state after one push of `row`.
    pub open spec fn push(self, row: Row) -> PusherView {
        if !self.enabled {
            self
        } else if self.rotation_due() {
            PusherView { window: seq![row], key: self.key + 1, ..self }
        } else {
            PusherView { window: self.window.push(row), ..self }
        }
    }

    /// The object to write for this state, if there is a destination: the
    /// whole window under the current key.
    pub open spec fn upload_of(self) -> Option<UploadView> {
        if self.enabled {
            Some(
                UploadView {
                    bucket: self.bucket,
                    key: key_text(self.prefix, self.key),
                    body: body_text(self.window),
                },
            )
        } else {
            None
        }
    }
}

/// The state after pushing `rows` one after the other.
pub open spec fn push_all(state: PusherView, rows: Seq<Row>) -> PusherView
    decreases rows.len(),
{
    if rows.len() == 0 {
        state
    } else {
        push_all(state, rows.drop_last()).push(rows.last())
    }
}

/// One push never lowers the rotation counter, raises it by one exactly when
/// it rotates, and leaves destination and batch size alone.
pub proof fn lemma_push_key(state: PusherView, row: Row)
    ensures
        state.push(row).key >= state.key,
        state.push(row).key == if state.enabled && state.rotation_due() {
            state.key + 1
        } else {
            state.key
        },
        state.push(row).enabled == state.enabled,
        state.push(row).bucket == state.bucket,
        state.push(row).prefix == state.prefix,
        state.push(row).threshold == state.threshold,
{
}

/// However many readings are pushed, the rotation counter never decreases.
pub proof fn lemma_key_never_decreases(state: PusherView, rows: Seq<Row>)
    ensures
        push_all(state, rows).key >= state.key,
        push_all(state, rows).enabled == state.enabled,
        push_all(state, rows).threshold == state.threshold,
    decreases rows.len(),
{
    if rows.len() > 0 {
        lemma_key_never_decreases(state, rows.drop_last());
    }
}

/// With a destination, the window after a push holds at least the reading
/// just pushed and never more than one reading beyond the batch size.
pub proof fn lemma_window_bounded(state: PusherView, row: Row)
    requires
        state.enabled,
    ensures
        1 <= state.push(row).window.len() <= state.threshold + 1,
        state.push(row).window.last() == row,
{
}

/// A window that has not outgrown the batch size takes further readings
/// without rotating: the readings pile up in order under the same key.
pub proof fn lemma_fill(state: PusherView, rows: Seq<Row>)
    requires
        state.enabled,
        state.window.len() + rows.len() <= state.threshold + 1,
    ensures
        push_all(state, rows).window == state.window + rows,
        push_all(state, rows).key == state.key,
    decreases rows.len(),
{
    if rows.len() > 0 {
        lemma_fill(state, rows.drop_last());
        lemma_key_never_decreases(state, rows.drop_last());
        assert(state.window + rows =~= (state.window + rows.drop_last()).push(rows.last()));
    } else {
        assert(state.window + rows =~= state.window);
    }
}

/// Rotation: an empty window takes one reading more than the batch size
/// under its key. The push after that starts the next object: the counter
/// goes up by one, and the window, and with it the upload, holds that
/// push's reading alone.
pub proof fn lemma_rotation(state: PusherView, rows: Seq<Row>, next: Row)
    requires
        state.enabled,
        state.window.len() == 0,
        rows.len() == state.threshold + 1,
    ensures
        push_all(state, rows).window == rows,
        push_all(state, rows).key == state.key,
        push_all(state, rows).push(next).key == state.key + 1,
        push_all(state, rows).push(next).window == seq![next],
        push_all(state, rows).push(next).upload_of() == Some(
            UploadView {
                bucket: state.bucket,
                key: key_text(state.prefix, state.key + 1),
                body: row_text(next),
            },
        ),
{
    lemma_fill(state, rows);
    lemma_key_never_decreases(state, rows);
    assert(state.window + rows =~= rows);
    let full = push_all(state, rows);
    lemma_push_key(full, next);
    assert(full.prefix == state.prefix && full.bucket == state.bucket) by {
        lemma_destination_kept(state, rows);
    }
    assert(rows_newest_first(seq![next]) =~= seq![row_text(next)]);
}

/// Pushing never changes where the objects go.
pub proof fn lemma_destination_kept(state: PusherView, rows: Seq<Row>)
    ensures
        push_all(state, rows).bucket == state.bucket,
        push_all(state, rows).prefix == state.prefix,
    decreases rows.len(),
{
    if rows.len() > 0 {
        lemma_destination_kept(state, rows.drop_last());
    }
}

/// The object's content has one row per reading of the window, and row `i`
/// of the file is the reading `i` places before the most recent one.
pub proof fn lemma_body_rows(window: Seq<Row>)
    ensures
        body_text(window) == join(rows_newest_first(window), '\n'),
        rows_newest_first(window).len() == window.len(),
        forall|i: int|
            0 <= i < window.len() ==> #[trigger] rows_newest_first(window)[i] == centi_text(
                window[window.len() - 1 - i].temp,
            ) + seq![','] + window[window.len() - 1 - i].time,
{
}

/// What contracts see of an upload that may be there.
pub open spec fn upload_view(upload: Option<Upload>) -> Option<UploadView> {
    match upload {
        Some(u) => Some(u@),
        None => None,
    }
}

/// The windowed uploader.
pub struct Pusher {
    enabled: bool,
    bucket: String,
    prefix: String,
    key: u32,
    window: Vec<Update>,
    threshold: usize,
}

impl View for Pusher {
    type V = PusherView;

    closed spec fn view(&self) -> PusherView {
        PusherView {
            enabled: self.enabled,
            bucket: self.bucket@,
            prefix: self.prefix@,
            key: self.key as nat,
            window: self.window@.map_values(|u: Update| u@),
            threshold: self.threshold as nat,
        }
    }
}

impl Pusher {
    /// An uploader without a destination and with the default batch size.
    pub fn new() -> (pusher: Pusher)
        ensures
            pusher@ == (PusherView {
                enabled: false,
                bucket: Seq::empty(),
                prefix: Seq::empty(),
                key: 0,
                window: Seq::empty(),
                threshold: BATCH_SIZE as nat,
            }),
    {
        Pusher::with_batch_size(BATCH_SIZE)
    }

    /// An uploader without a destination that rotates once its window holds
    /// more than `threshold` readings.
    pub fn with_batch_size(threshold: usize) -> (pusher: Pusher)
        ensures
            pusher@ == (PusherView {
                enabled: false,
                bucket: Seq::empty(),
                prefix: Seq::empty(),
                key: 0,
                window: Seq::empty(),
                threshold: threshold as nat,
            }),
    {
        let pusher = Pusher {
            enabled: false,
            bucket: String::new(),
            prefix: String::new(),
            key: 0,
            window: Vec::new(),
            threshold,
        };
        assert(pusher@.window =~= Seq::empty());
        pusher
    }

    /// Sets the destination: from now on every push yields an upload into
    /// `bucket`, under keys that start with `prefix`.
    pub fn init(&mut self, bucket: String, prefix: String)
        ensures
            final(self)@ == old(self)@.with_destination(bucket@, prefix@),
    {
        self.bucket = bucket;
        self.prefix = prefix;
        self.enabled = true;
    }

    /// Sets the destination for a run that starts now: as [`Pusher::init`],
    /// with the current time, in ISO-8601 with milliseconds, as the prefix.
    pub fn init_now(&mut self, bucket: String)
        ensures
            exists|prefix: Seq<char>|
                is_field_text(prefix) && final(self)@ == #[trigger] old(self)@.with_destination(
                    bucket@,
                    prefix,
                ),
    {
        let prefix = utc_now_rfc3339();
        let ghost text = prefix@;
        self.init(bucket, prefix);
        assert(self@ == old(self)@.with_destination(bucket@, text));
    }

    /// The destination bucket; empty before there is a destination.
    pub fn bucket(&self) -> (bucket: &str)
        ensures
            bucket@ == self@.bucket,
    {
        self.bucket.as_str()
    }

    /// The directory of this run inside the bucket; empty before there is a
    /// destination.
    pub fn prefix(&self) -> (prefix: &str)
        ensures
            prefix@ == self@.prefix,
    {
        self.prefix.as_str()
    }

    /// Whether a destination is configured.
    pub fn is_enabled(&self) -> (enabled: bool)
        ensures
            enabled == self@.enabled,
    {
        self.enabled
    }

    /// The rotation counter.
    pub fn key(&self) -> (key: u32)
        ensures
            key == self@.key,
    {
        self.key
    }

    /// The number of readings in the window.
    pub fn len(&self) -> (len: usize)
        ensures
            len == self@.window.len(),
    {
        self.window.len()
    }

    /// The batch size.
    pub fn batch_size(&self) -> (threshold: usize)
        ensures
            threshold == self@.threshold,
    {
        self.threshold
    }

    /// Whether the rotation counter has room for the next push.
    pub fn can_push(&self) -> (ok: bool)
        ensures
            ok == self@.can_push(),
    {
        !(self.enabled && self.window.len() > self.threshold) || self.key < u32::MAX
    }

    /// The key of the object that holds the current window.
    pub fn object_key(&self) -> (key: String)
        ensures
            key@ == key_text(self@.prefix, self@.key),
    {
        let mut key = self.prefix.clone();
        key.push('/');
        push_decimal(&mut key, self.key as u64);
        proof {
            reveal_strlit(".csv");
        }
        key.append(".csv");
        assert(key@ =~= key_text(self@.prefix, self@.key));
        key
    }

    /// Renders the window as the content of its object: one row per reading,
    /// most recent first, joined by line breaks.
    pub fn serialize(&self) -> (body: String)
        ensures
            body@ == body_text(self@.window),
    {
        let n = self.window.len();
        let ghost lines = rows_newest_first(self@.window);
        let mut body = String::new();
        let mut done: usize = 0;
        while done < n
            invariant
                done <= n == self.window@.len(),
                lines == rows_newest_first(self@.window),
                body@ == join(lines.take(done as int), '\n'),
            decreases n - done,
        {
            let update = &self.window[n - 1 - done];
            let ghost before = body@;
            if done > 0 {
                body.push('\n');
            }
            push_centi(&mut body, update.temp);
            body.push(',');
            body.append(update.time.as_str());
            proof {
                let grown = lines.take(done + 1);
                assert(grown.drop_last() =~= lines.take(done as int));
                assert(grown.last() == row_text(update@));
                assert(body@ =~= join(grown, '\n'));
            }
            done += 1;
        }
        assert(lines.take(n as int) =~= lines);
        body
    }

    /// Archives one reading taken at `stamp`: rotates if the window has
    /// outgrown the batch size, appends the reading, and hands back the
    /// object to write, which holds the whole window. Without a destination
    /// the reading is dropped and nothing changes.
    pub fn push_at(&mut self, t: i32, stamp: String) -> (upload: Option<Upload>)
        requires
            old(self)@.can_push(),
        ensures
            final(self)@ == old(self)@.push(Row { temp: t as int, time: stamp@ }),
            upload_view(upload) == final(self)@.upload_of(),
    {
        if !self.enabled {
            return None;
        }
        let ghost row = Row { temp: t as int, time: stamp@ };
        if self.window.len() > self.threshold {
            self.window.clear();
            self.key += 1;
            assert(self@.window =~= Seq::empty());
        }
        let ghost kept = self@.window;
        self.window.push(Update { temp: t, time: stamp });
        assert(self@.window =~= kept.push(row));
        assert(self@.window =~= old(self)@.push(row).window);
        let body = self.serialize();
        let key = self.object_key();
        Some(Upload { bucket: self.bucket.clone(), key, body })
    }

    /// Archives one reading, stamped with the current time. Whatever the
    /// clock says, the state moves as in [`Pusher::push_at`] for that stamp.
    pub fn push(&mut self, t: i32) -> (upload: Option<Upload>)
        requires
            old(self)@.can_push(),
        ensures
            exists|stamp: Seq<char>|
                is_field_text(stamp) && #[trigger] old(self)@.push(Row { temp: t as int, time: stamp })
                    == final(self)@,
            upload_view(upload) == final(self)@.upload_of(),
    {
        if !self.enabled {
            proof {
                let stamp = Seq::<char>::empty();
                assert(old(self)@.push(Row { temp: t as int, time: stamp }) == self@);
            }
            return None;
        }
        let stamp = utc_now_rfc3339();
        let ghost text = stamp@;
        let upload = self.push_at(t, stamp);
        proof {
            assert(old(self)@.push(Row { temp: t as int, time: text }) == self@);
        }
        upload
    }
}

} // verus!
