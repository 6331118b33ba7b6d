use simharness::capture::Capture;

/// Drains `chunks` into a capture and a stand-in log file, writing at most
/// `max_write` bytes per write.
fn drain(chunks: &[&[u8]], max_write: usize) -> (Capture, Vec<u8>) {
    let mut c = Capture::new();
    let mut file: Vec<u8> = Vec::new();
    for chunk in chunks {
        c.append(chunk);
        let pending = c.pending();
        let n = pending.len().min(max_write);
        file.extend_from_slice(&pending[..n]);
        assert!(c.mark_written(n));
    }
    loop {
        let pending = c.pending();
        if pending.is_empty() {
            break;
        }
        let n = pending.len().min(max_write);
        file.extend_from_slice(&pending[..n]);
        assert!(c.mark_written(n));
    }
    (c, file)
}

#[test]
fn log_file_and_memory_hold_the_same_bytes() {
    let chunks: [&[u8]; 4] = [b"first line\n", b"", b"burst of output ", b"and the rest\n"];
    let (c, file) = drain(&chunks, 3);
    assert!(c.is_synced());
    let bytes = c.into_bytes().unwrap();
    assert_eq!(bytes, file);
    assert_eq!(bytes, b"first line\nburst of output and the rest\n".to_vec());
}

#[test]
fn large_capture_round_trip() {
    let big: Vec<u8> = (0..200_000u32).map(|i| (i % 251) as u8).collect();
    let chunks: Vec<&[u8]> = big.chunks(4096).collect();
    let (c, file) = drain(&chunks, 1000);
    assert_eq!(c.into_bytes().unwrap(), big);
    assert_eq!(file, big);
}

#[test]
fn unwritten_bytes_are_reported() {
    let mut c = Capture::new();
    c.append(b"abcdef");
    assert!(c.mark_written(2));
    assert_eq!(c.pending(), b"cdef".to_vec());
    assert!(!c.is_synced());
    assert!(!c.mark_written(5));
    assert_eq!(c.pending(), b"cdef".to_vec());
    assert_eq!(c.into_bytes(), Err(4));
}

#[test]
fn empty_capture_is_synced() {
    let c = Capture::new();
    assert!(c.is_synced());
    assert_eq!(c.pending(), Vec::<u8>::new());
    assert_eq!(c.into_bytes(), Ok(Vec::new()));
}
