use mlx_serial::{decimal_bytes, format_word, MemorySequence, SequenceStep, SerialResult};

const WORDS: [u16; 8] = [0, 7, 42, 999, 1000, 12345, 65535, 300];

/// Runs a sequence, failing the write with index `fail_at`, if any; returns
/// the writes attempted with their waits, and the result.
fn run(words: &[u16], fail_at: Option<usize>) -> (Vec<(Vec<u8>, u64)>, SerialResult) {
    let mut seq = MemorySequence::start("W", &words.to_vec(), true).ok().unwrap();
    let mut writes = Vec::new();
    let mut w = seq.pending();
    loop {
        let index = writes.len();
        writes.push((w.bytes.clone(), w.settle_ms));
        let outcome = if fail_at == Some(index) { Err("broken pipe".to_string()) } else { Ok(()) };
        match seq.advance(outcome) {
            SequenceStep::Write(next) => w = next,
            SequenceStep::Finished(r) => return (writes, r),
        }
    }
}

#[test]
fn word_fields_are_five_wide() {
    assert_eq!(format_word(42), b"   42".to_vec());
    assert_eq!(format_word(7), b"    7".to_vec());
    assert_eq!(format_word(0), b"    0".to_vec());
    assert_eq!(format_word(12345), b"12345".to_vec());
    assert_eq!(format_word(65535), b"65535".to_vec());
    for w in [0u16, 9, 10, 99, 100, 9999, 10000, 65535] {
        let f = format_word(w);
        assert_eq!(f.len(), 5);
        assert_eq!(String::from_utf8(f).unwrap(), format!("{:5}", w));
    }
}

#[test]
fn decimal_digits() {
    assert_eq!(decimal_bytes(0), b"0".to_vec());
    assert_eq!(decimal_bytes(65536), b"65536".to_vec());
}

#[test]
fn wrong_word_count_is_refused() {
    for n in [0usize, 1, 7, 9, 16] {
        let r = MemorySequence::start("W", &vec![1u16; n], true).err().unwrap();
        assert!(!r.success);
        assert_eq!(r.message, "Need exactly 8 words");
        let r = MemorySequence::start("W", &vec![1u16; n], false).err().unwrap();
        assert_eq!(r.message, "Need exactly 8 words");
    }
}

#[test]
fn sequence_needs_a_channel() {
    let r = MemorySequence::start("E", &WORDS.to_vec(), false).err().unwrap();
    assert!(!r.success);
    assert_eq!(r.message, "Not connected");
}

#[test]
fn full_sequence_writes_command_words_and_confirms() {
    let (writes, r) = run(&WORDS, None);
    assert!(r.success);
    assert_eq!(r.message, "Memory sequence sent");
    assert_eq!(writes.len(), 17);
    assert_eq!(writes[0], (b"W".to_vec(), 50));
    for (k, w) in WORDS.iter().enumerate() {
        assert_eq!(writes[1 + 2 * k], (format_word(*w), 10));
        assert_eq!(writes[2 + 2 * k], (b"y".to_vec(), 20));
    }
    assert_eq!(writes[5], (b"   42".to_vec(), 10));
    let total: u64 = writes.iter().map(|w| w.1).sum();
    assert_eq!(total, 290);
}

#[test]
fn failure_at_confirm_of_word_three_stops() {
    let (writes, r) = run(&WORDS, Some(8));
    assert!(!r.success);
    assert_eq!(r.message, "Failed to send confirm: broken pipe");
    assert_eq!(writes.len(), 9);
    assert_eq!(writes[8].0, b"y".to_vec());
    assert_eq!(writes[7].0, format_word(WORDS[3]));
    for k in 4..8 {
        assert!(!writes.iter().any(|w| w.0 == format_word(WORDS[k])));
    }
}

#[test]
fn failure_at_command_and_at_word() {
    let (writes, r) = run(&WORDS, Some(0));
    assert!(!r.success);
    assert_eq!(r.message, "Failed to send command: broken pipe");
    assert_eq!(writes.len(), 1);
    let (writes, r) = run(&WORDS, Some(5));
    assert!(!r.success);
    assert_eq!(r.message, "Failed to send word: broken pipe");
    assert_eq!(writes.len(), 6);
}
