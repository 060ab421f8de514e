use md5_files::digest::{digest_in_chunks, Accumulator, Digest};
use md5_files::results::{any_failed, HashError, Outcome, ResultSet};
use md5_files::task::{estimate, Eta, HashTask, Step, DEFAULT_CHUNK_SIZE, PROGRESS_THRESHOLD_NANOS};

const EMPTY_MD5: &str = "d41d8cd98f00b204e9800998ecf8427e";
const FOX: &[u8] = b"The quick brown fox jumps over the lazy dog";
const FOX_MD5: &str = "9e107d9d372bb6826bd81d3542a419d6";

fn hex(d: &Digest) -> String {
    d.bytes.iter().map(|b| format!("{:02x}", b)).collect()
}

/// Feeds `data` to a task the way a file reader would, with the run time of
/// each read taken from `times`; returns the digest and the estimates.
fn run_task(data: &[u8], chunk_size: usize, total: Option<u64>, times: &[u64]) -> (Digest, Vec<Eta>) {
    let mut task = HashTask::new(chunk_size, total);
    let mut pos = 0;
    let mut etas = Vec::new();
    let mut k = 0;
    loop {
        let buf = task.buffer_mut();
        let n = buf.len().min(data.len() - pos);
        buf[..n].copy_from_slice(&data[pos..pos + n]);
        pos += n;
        let t = times.get(k).copied().unwrap_or(0);
        k += 1;
        match task.on_read(n, t) {
            Step::Continue => {}
            Step::Progress(e) => etas.push(e),
            Step::Done => break,
        }
    }
    (task.finish(), etas)
}

fn big_data(len: usize) -> Vec<u8> {
    (0..len).map(|i| (i * 31 % 251) as u8).collect()
}

#[test]
fn known_digests_for_every_chunk_size() {
    for size in [1usize, 7, 64, 4096, 1_000_000] {
        assert_eq!(hex(&digest_in_chunks(b"", size)), EMPTY_MD5);
        assert_eq!(hex(&digest_in_chunks(b"abc", size)), "900150983cd24fb0d6963f7d28e17f72");
        assert_eq!(hex(&digest_in_chunks(FOX, size)), FOX_MD5);
    }
}

#[test]
fn chunk_size_does_not_change_the_digest() {
    let data = big_data(10_000);
    let reference = md5::compute(&data).0;
    for size in [1usize, 64, 4096, 1_000_000] {
        assert_eq!(digest_in_chunks(&data, size).bytes, reference);
        let (d, _) = run_task(&data, size, Some(data.len() as u64), &[]);
        assert_eq!(d.bytes, reference);
    }
}

#[test]
fn accumulator_partitions_agree() {
    let mut whole = Accumulator::new();
    whole.consume(FOX);
    let mut parts = Accumulator::new();
    parts.consume(&FOX[..10]);
    parts.consume(&[]);
    parts.consume(&FOX[10..11]);
    parts.consume(&FOX[11..]);
    let a = whole.finalize();
    let b = parts.finalize();
    assert_eq!(a.bytes, b.bytes);
    assert_eq!(hex(&a), FOX_MD5);
    assert_ne!(hex(&a), hex(&Accumulator::new().finalize()));
}

#[test]
fn task_over_a_file_matches_known_digest() {
    for size in [1usize, 7, DEFAULT_CHUNK_SIZE, 1_000] {
        let (d, etas) = run_task(FOX, size, Some(FOX.len() as u64), &[]);
        assert_eq!(hex(&d), FOX_MD5);
        assert!(etas.is_empty());
    }
}

#[test]
fn empty_file_has_empty_digest_and_no_notice() {
    let mut task = HashTask::new(DEFAULT_CHUNK_SIZE, Some(0));
    assert!(matches!(task.on_read(0, 10 * PROGRESS_THRESHOLD_NANOS), Step::Done));
    assert_eq!(hex(&task.finish()), EMPTY_MD5);
}

#[test]
fn only_the_first_chunk_after_the_threshold_reports() {
    let data = big_data(100);
    let times = [1_000_000_000, 2_500_000_000, 3_000_000_000, 4_000_000_000];
    let (d, etas) = run_task(&data, 25, Some(100), &times);
    assert_eq!(d.bytes, md5::compute(&data).0);
    assert_eq!(etas.len(), 1);
    // 50 bytes took 2.5 s, 50 bytes remain: 2.5 s more.
    assert_eq!(etas[0].secs, 2);
    assert_eq!(etas[0].subsec_nanos, 500_000_000);
}

#[test]
fn fast_file_reports_nothing() {
    let data = big_data(100);
    let times = [PROGRESS_THRESHOLD_NANOS; 5];
    let (_, etas) = run_task(&data, 25, Some(100), &times);
    assert!(etas.is_empty());
}

#[test]
fn unknown_size_reports_nothing() {
    let data = big_data(100);
    let times = [5_000_000_000u64; 5];
    let (d, etas) = run_task(&data, 25, None, &times);
    assert_eq!(d.bytes, md5::compute(&data).0);
    assert!(etas.is_empty());
}

#[test]
fn grown_file_estimates_zero() {
    let data = big_data(100);
    let times = [5_000_000_000u64; 5];
    let (_, etas) = run_task(&data, 50, Some(10), &times);
    assert_eq!(etas.len(), 1);
    assert_eq!(etas[0].secs, 0);
    assert_eq!(etas[0].subsec_nanos, 0);
}

#[test]
fn feeds_only_the_bytes_read() {
    let mut task = HashTask::new(8, Some(3));
    task.buffer_mut().copy_from_slice(b"abcXXXXX");
    assert!(matches!(task.on_read(3, 0), Step::Continue));
    assert!(matches!(task.on_read(0, 0), Step::Done));
    assert_eq!(hex(&task.finish()), "900150983cd24fb0d6963f7d28e17f72");
}

#[test]
fn buffer_has_the_chunk_size() {
    let mut task = HashTask::new(4096, Some(1 << 40));
    assert_eq!(task.chunk_len(), 4096);
    assert_eq!(task.buffer_mut().len(), 4096);
    assert!(matches!(task.on_read(4096, 0), Step::Continue));
    assert_eq!(task.chunk_len(), 4096);
}

#[test]
fn estimate_exact_values() {
    let e = estimate(100, 3_000_000_000, 50);
    assert_eq!((e.secs, e.subsec_nanos), (6, 0));
    let e = estimate(1, 1, 3);
    assert_eq!((e.secs, e.subsec_nanos), (0, 0));
    let e = estimate(7, 1_000_000_001, 2);
    assert_eq!((e.secs, e.subsec_nanos), (3, 500_000_003));
    let e = estimate(u64::MAX, u64::MAX, 1);
    assert_eq!((e.secs, e.subsec_nanos), (u64::MAX, 999_999_999));
}

fn ok(data: &[u8]) -> Outcome {
    Ok(digest_in_chunks(data, 4096))
}

#[test]
fn results_keep_input_order() {
    let mut set = ResultSet::new(3);
    assert_eq!(set.len(), 3);
    // B finishes first, then A, then C.
    set.record(1, ok(b"b"));
    assert!(!set.is_complete());
    set.record(0, ok(b"a"));
    set.record(2, ok(b"c"));
    assert!(set.is_complete());
    let out = set.into_ordered();
    let want = [b"a", b"b", b"c"];
    assert_eq!(out.len(), 3);
    for (o, w) in out.iter().zip(want) {
        assert_eq!(o.as_ref().unwrap().bytes, md5::compute(w).0);
    }
    assert!(!any_failed(&out));
}

#[test]
fn one_failure_leaves_the_others() {
    let mut set = ResultSet::new(3);
    set.record(2, ok(b"two"));
    set.record(1, Err(HashError::Open("No such file or directory".to_string())));
    set.record(0, ok(b"zero"));
    let out = set.into_ordered();
    assert_eq!(out[0].as_ref().unwrap().bytes, md5::compute(b"zero").0);
    assert!(matches!(&out[1], Err(HashError::Open(m)) if m == "No such file or directory"));
    assert_eq!(out[2].as_ref().unwrap().bytes, md5::compute(b"two").0);
    assert!(any_failed(&out));
}

#[test]
fn read_error_is_a_failure() {
    let out = vec![ok(b"x"), Err(HashError::Read("Input/output error".to_string()))];
    assert!(any_failed(&out));
    assert!(!any_failed(&Vec::new()));
}

#[test]
fn empty_result_set_is_complete() {
    let set = ResultSet::new(0);
    assert!(set.is_complete());
    assert!(set.into_ordered().is_empty());
}
