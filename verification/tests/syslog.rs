use sleuth::syslog::{
    format_syslog_message, priority_of, BufWriter, PersistentBuf, FilterResponse, Level, LevelFilter,
    MetaDataFilter, MetaDataFilterConfig, MetaDataFilterDeserializer,
};

#[test]
fn filter_rejects_less_severe_records() {
    let f = MetaDataFilter::new(LevelFilter::Warn);
    assert_eq!(f.filter(Level::Error), FilterResponse::Neutral);
    assert_eq!(f.filter(Level::Warn), FilterResponse::Neutral);
    assert_eq!(f.filter(Level::Info), FilterResponse::Reject);
    let off = MetaDataFilter::new(LevelFilter::Off);
    assert_eq!(off.filter(Level::Error), FilterResponse::Reject);
    let all = MetaDataFilterDeserializer.deserialize(MetaDataFilterConfig { level: LevelFilter::Trace });
    assert_eq!(all.filter(Level::Trace), FilterResponse::Neutral);
    assert_eq!(all, MetaDataFilter::new(LevelFilter::Trace));
}

#[test]
fn syslog_priorities_and_lines() {
    assert_eq!(priority_of(Level::Error), 11);
    assert_eq!(priority_of(Level::Warn), 12);
    assert_eq!(priority_of(Level::Info), 14);
    assert_eq!(priority_of(Level::Debug), 15);
    assert_eq!(priority_of(Level::Trace), 15);
    assert_eq!(
        format_syslog_message(Level::Info, "Jan 02 03:04:05", "unchained", "sleuth", "hello"),
        "<14>Jan 02 03:04:05 unchained sleuth: hello"
    );
}

#[test]
fn buffer_reads_back_text_and_resets() {
    let mut shared = PersistentBuf::new();
    let mut w = BufWriter::new(&mut shared);
    assert_eq!(w.write(&mut shared, "h\u{e9}llo ".as_bytes()), 7);
    assert_eq!(w.write(&mut shared, b"world"), 5);
    assert_eq!(w.flush_to_string(&mut shared), "h\u{e9}llo world");
    assert_eq!(w.flush_to_string(&mut shared), "");
    w.write(&mut shared, &[0xff, 0xfe]);
    assert_eq!(w.flush_to_string(&mut shared), "<invalid utf8>");
    w.write(&mut shared, b"x");
    w.flush(&mut shared);
    assert_eq!(w.flush_to_string(&mut shared), "");
}

#[test]
fn writers_of_a_thread_share_one_buffer() {
    let mut shared = PersistentBuf::new();
    let mut a = BufWriter::new(&mut shared);
    a.write(&mut shared, b"first ");
    let b = BufWriter::new(&mut shared);
    a.write(&mut shared, b"second");
    // The second writer started the shared buffer over; both read the same text.
    assert_eq!(b.flush_to_string(&mut shared), "second");
    assert_eq!(a.flush_to_string(&mut shared), "");
}
