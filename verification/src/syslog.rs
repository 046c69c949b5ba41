use vstd::prelude::*;
use vstd::utf8::{decode_utf8, encode_utf8, valid_utf8};
use crate::text::{chars_of, decimal_text, format_decimal, string_from_chars};

verus! {

/// How severe a log record is, most severe first (the levels of the `log`
/// crate).
#[derive(PartialEq, Eq, Structural, Clone, Copy, Hash, Debug)]
pub enum Level {
    Error,
    Warn,
    Info,
    Debug,
    Trace,
}

/// A threshold on log records: `Off` lets nothing through, `Trace` lets
/// everything through.
#[derive(PartialEq, Eq, Structural, Clone, Copy, Hash, Debug)]
pub enum LevelFilter {
    Off,
    Error,
    Warn,
    Info,
    Debug,
    Trace,
}

/// The rank of a level: 1 for `Error` up to 5 for `Trace`.
pub open spec fn level_rank(l: Level) -> nat {
    match l {
        Level::Error => 1,
        Level::Warn => 2,
        Level::Info => 3,
        Level::Debug => 4,
        Level::Trace => 5,
    }
}

/// The rank of a threshold: 0 for `Off` up to 5 for `Trace`; a record passes a
/// threshold when its rank is not above the threshold's.
pub open spec fn filter_rank(f: LevelFilter) -> nat {
    match f {
        LevelFilter::Off => 0,
        LevelFilter::Error => 1,
        LevelFilter::Warn => 2,
        LevelFilter::Info => 3,
        LevelFilter::Debug => 4,
        LevelFilter::Trace => 5,
    }
}

impl Level {
    /// The rank of this level.
    pub fn rank(&self) -> (r: u8)
        ensures
            r == level_rank(*self),
    {
        match self {
            Level::Error => 1,
            Level::Warn => 2,
            Level::Info => 3,
            Level::Debug => 4,
            Level::Trace => 5,
        }
    }
}

impl LevelFilter {
    /// The rank of this threshold.
    pub fn rank(&self) -> (r: u8)
        ensures
            r == filter_rank(*self),
    {
        match self {
            LevelFilter::Off => 0,
            LevelFilter::Error => 1,
            LevelFilter::Warn => 2,
            LevelFilter::Info => 3,
            LevelFilter::Debug => 4,
            LevelFilter::Trace => 5,
        }
    }
}

/// What a filter answers for a record.
#[derive(PartialEq, Eq, Structural, Clone, Copy, Debug)]
pub enum FilterResponse {
    Accept,
    Neutral,
    Reject,
}

/// What a filter with the given threshold answers for a record at `level`:
/// it rejects the record when the level ranks above the threshold.
pub open spec fn filter_answer(threshold: LevelFilter, level: Level) -> FilterResponse {
    if level_rank(level) > filter_rank(threshold) {
        FilterResponse::Reject
    } else {
        FilterResponse::Neutral
    }
}

/// The levels from the most severe to the most verbose.
pub open spec fn levels_by_verbosity() -> Seq<Level> {
    seq![Level::Error, Level::Warn, Level::Info, Level::Debug, Level::Trace]
}

/// The thresholds that let something through, each named after the level
/// at the same position of [`levels_by_verbosity`].
pub open spec fn thresholds_by_verbosity() -> Seq<LevelFilter> {
    seq![LevelFilter::Error, LevelFilter::Warn, LevelFilter::Info, LevelFilter::Debug, LevelFilter::Trace]
}

/// A threshold lets through the level of its own name and every level more
/// severe than it, and rejects every level more verbose than it; `Off`
/// rejects every level.
pub proof fn lemma_filter_follows_verbosity()
    ensures
        forall|i: int, j: int|
            0 <= i < 5 && 0 <= j < 5 ==> #[trigger] filter_answer(
                thresholds_by_verbosity()[i],
                levels_by_verbosity()[j],
            ) == (if j <= i {
                FilterResponse::Neutral
            } else {
                FilterResponse::Reject
            }),
        forall|j: int|
            0 <= j < 5 ==> #[trigger] filter_answer(LevelFilter::Off, levels_by_verbosity()[j])
                == FilterResponse::Reject,
{
    let ls = levels_by_verbosity();
    let ts = thresholds_by_verbosity();
    assert(ls[0] == Level::Error && ls[1] == Level::Warn && ls[2] == Level::Info
        && ls[3] == Level::Debug && ls[4] == Level::Trace);
    assert(ts[0] == LevelFilter::Error && ts[1] == LevelFilter::Warn && ts[2] == LevelFilter::Info
        && ts[3] == LevelFilter::Debug && ts[4] == LevelFilter::Trace);
}

/// The configuration of a [`MetaDataFilter`]: its threshold.
pub struct MetaDataFilterConfig {
    pub level: LevelFilter,
}

/// A filter that rejects all records at a level below a threshold.
#[derive(Copy, Clone, PartialEq, Eq, Structural, Hash, Debug)]
pub struct MetaDataFilter {
    level: LevelFilter,
}

impl MetaDataFilter {
    /// The threshold of this filter.
    pub closed spec fn threshold(self) -> LevelFilter {
        self.level
    }

    /// Creates a filter with the given threshold.
    pub fn new(level: LevelFilter) -> (r: MetaDataFilter)
        ensures
            r.threshold() == level,
    {
        MetaDataFilter { level }
    }

    /// Rejects a record whose level is less severe than the threshold, and
    /// leaves the decision on any other record to the next filter.
    pub fn filter(&self, level: Level) -> (r: FilterResponse)
        ensures
            r == filter_answer(self.threshold(), level),
    {
        if level.rank() > self.level.rank() {
            FilterResponse::Reject
        } else {
            FilterResponse::Neutral
        }
    }
}

/// Builds a [`MetaDataFilter`] from its configuration.
#[derive(Copy, Clone, PartialEq, Eq, Structural, Hash, Debug)]
pub struct MetaDataFilterDeserializer;

impl MetaDataFilterDeserializer {
    /// The filter that `config` describes.
    pub fn deserialize(&self, config: MetaDataFilterConfig) -> (r: MetaDataFilter)
        ensures
            r.threshold() == config.level,
    {
        MetaDataFilter::new(config.level)
    }
}

/// The syslog priority of a record of the user facility: the facility (1)
/// times eight plus the severity of the level (error 3, warning 4,
/// informational 6, debug 7).
pub open spec fn syslog_priority(level: Level) -> nat {
    8 + match level {
        Level::Error => 3nat,
        Level::Warn => 4,
        Level::Info => 6,
        Level::Debug => 7,
        Level::Trace => 7,
    }
}

/// The syslog priority of a record at `level`.
pub fn priority_of(level: Level) -> (r: u8)
    ensures
        r == syslog_priority(level),
{
    let severity: u8 = match level {
        Level::Error => 3,
        Level::Warn => 4,
        Level::Info => 6,
        Level::Debug | Level::Trace => 7,
    };
    severity + 8
}

/// The syslog line `<priority>timestamp hostname tag: message`.
pub open spec fn syslog_line(
    level: Level,
    timestamp: Seq<char>,
    hostname: Seq<char>,
    tag: Seq<char>,
    msg: Seq<char>,
) -> Seq<char> {
    seq!['<'] + decimal_text(syslog_priority(level)) + seq!['>'] + timestamp + seq![' '] + hostname
        + seq![' '] + tag + seq![':', ' '] + msg
}

/// Formats a record for syslog; `timestamp` is the local time of the record,
/// already written as `Mon dd hh:mm:ss`.
pub fn format_syslog_message(
    level: Level,
    timestamp: &str,
    hostname: &str,
    tag: &str,
    msg: &str,
) -> (r: String)
    ensures
        r@ == syslog_line(level, timestamp@, hostname@, tag@, msg@),
{
    let pri = priority_of(level);
    let mut out: Vec<char> = Vec::new();
    out.push('<');
    let mut digits = format_decimal(pri as u64);
    out.append(&mut digits);
    out.push('>');
    let mut t = chars_of(timestamp);
    out.append(&mut t);
    out.push(' ');
    let mut h = chars_of(hostname);
    out.append(&mut h);
    out.push(' ');
    let mut g = chars_of(tag);
    out.append(&mut g);
    out.push(':');
    out.push(' ');
    let mut m = chars_of(msg);
    out.append(&mut m);
    proof {
        assert(out@ =~= syslog_line(level, timestamp@, hostname@, tag@, msg@));
    }
    string_from_chars(out.as_slice())
}

/// The text of `bytes` read as UTF-8 (`std::str::from_utf8`): `None` exactly
/// when no character sequence has `bytes` as its UTF-8 encoding, as the
/// function's documentation says ("Returns `Err` if the slice is not UTF-8").
#[verifier::external_body]
fn utf8_text(bytes: &[u8]) -> (r: Option<String>)
    ensures
        match r {
            Some(s) => encode_utf8(s@) == bytes@,
            None => forall|cs: Seq<char>| encode_utf8(cs) != bytes@,
        },
{
    match std::str::from_utf8(bytes) {
        Ok(s) => Some(s.to_string()),
        Err(_) => None,
    }
}

/// What a flushed buffer reads as: its text when the bytes are UTF-8, and the
/// marker `<invalid utf8>` otherwise.
pub open spec fn flushed_text(bytes: Seq<u8>) -> Seq<char> {
    if valid_utf8(bytes) {
        decode_utf8(bytes)
    } else {
        "<invalid utf8>"@
    }
}

/// The buffer that the log writers of one thread share: the bytes written
/// since it was last reset.
pub struct PersistentBuf {
    bytes: Vec<u8>,
}

impl View for PersistentBuf {
    type V = Seq<u8>;

    closed spec fn view(&self) -> Seq<u8> {
        self.bytes@
    }
}

impl PersistentBuf {
    /// An empty buffer with room for 4096 bytes.
    pub fn new() -> (r: PersistentBuf)
        ensures
            r@ == Seq::<u8>::empty(),
    {
        PersistentBuf { bytes: Vec::with_capacity(4096) }
    }

    /// Forgets the bytes written so far.
    fn reset(&mut self)
        ensures
            final(self)@ == Seq::<u8>::empty(),
    {
        self.bytes.clear();
    }
}

/// A writer of encoded log records into the buffer its thread shares (see
/// [`PersistentBuf`]); every writer of a thread works on that one buffer.
pub struct BufWriter;

impl BufWriter {
    /// A writer on the thread's buffer `shared`, which starts over empty.
    pub fn new(shared: &mut PersistentBuf) -> (r: BufWriter)
        ensures
            final(shared)@ == Seq::<u8>::empty(),
    {
        shared.reset();
        BufWriter
    }

    /// Appends `bytes` to the shared buffer and reports that all of them were
    /// taken.
    pub fn write(&mut self, shared: &mut PersistentBuf, bytes: &[u8]) -> (r: usize)
        ensures
            final(shared)@ == old(shared)@ + bytes@,
            r == bytes@.len(),
    {
        let mut i: usize = 0;
        while i < bytes.len()
            invariant
                i <= bytes@.len(),
                shared.bytes@ == old(shared).bytes@ + bytes@.take(i as int),
            decreases bytes@.len() - i,
        {
            shared.bytes.push(bytes[i]);
            assert(bytes@.take(i + 1) =~= bytes@.take(i as int).push(bytes@[i as int]));
            i += 1;
        }
        assert(bytes@.take(bytes@.len() as int) =~= bytes@);
        bytes.len()
    }

    /// Returns the shared buffer's bytes as text (see [`flushed_text`]) and
    /// resets the buffer.
    pub fn flush_to_string(&self, shared: &mut PersistentBuf) -> (r: String)
        ensures
            r@ == flushed_text(old(shared)@),
            final(shared)@ == Seq::<u8>::empty(),
    {
        let text = match utf8_text(shared.bytes.as_slice()) {
            Some(s) => {
                proof {
                    vstd::utf8::encode_utf8_valid_utf8(s@);
                    vstd::utf8::encode_utf8_decode_utf8(s@);
                }
                s
            },
            None => {
                proof {
                    if valid_utf8(shared.bytes@) {
                        vstd::utf8::decode_utf8_encode_utf8(shared.bytes@);
                        assert(encode_utf8(decode_utf8(shared.bytes@)) == shared.bytes@);
                    }
                }
                "<invalid utf8>".to_owned()
            },
        };
        shared.reset();
        text
    }

    /// Ends the record: the shared buffer is read out and reset.
    pub fn flush(&mut self, shared: &mut PersistentBuf)
        ensures
            final(shared)@ == Seq::<u8>::empty(),
    {
        let _line = self.flush_to_string(shared);
    }
}

} // verus!
