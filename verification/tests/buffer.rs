use mqtt_adls_bridge::buffer::{handle_write_jobs, BatchBuffer, Flush};
use mqtt_adls_bridge::job::{MqttPayload, WriteJob};

fn job(path: &str, payload: &str, n_per_file: i32) -> WriteJob {
    WriteJob { path: path.to_string(), payload: payload.to_string(), n_per_file }
}

fn flush(path: &str, payloads: &[&str]) -> Flush {
    Flush { path: path.to_string(), payloads: payloads.iter().map(|p| p.to_string()).collect() }
}

#[test]
fn second_payload_of_two_flushes_both_in_order() {
    let mut buffer = BatchBuffer::new();
    assert_eq!(buffer.dispatch(job("k1", "A", 2)), None);
    assert_eq!(buffer.pending("k1"), vec!["A"]);
    assert_eq!(buffer.dispatch(job("k1", "B", 2)), Some(flush("k1", &["A", "B"])));
    assert!(buffer.pending("k1").is_empty());
    assert!(buffer.contains_key("k1"));
}

#[test]
fn one_flush_per_full_batch_in_arrival_order() {
    let mut buffer = BatchBuffer::new();
    let mut flushes = Vec::new();
    for i in 0..7 {
        if let Some(f) = buffer.dispatch(job("key", &format!("m{}", i), 3)) {
            assert!(buffer.pending("key").is_empty());
            flushes.push(f);
        }
        assert!(buffer.pending("key").len() < 3);
    }
    assert_eq!(flushes, vec![flush("key", &["m0", "m1", "m2"]), flush("key", &["m3", "m4", "m5"])]);
    assert_eq!(buffer.pending("key"), vec!["m6"]);
}

#[test]
fn handle_write_jobs_returns_the_flushes_in_order() {
    let mut buffer = BatchBuffer::new();
    let jobs = vec![
        job("a", "a0", 2),
        job("b", "b0", 1),
        job("", "lost", 1),
        job("a", "a1", 2),
        job("a", "a2", 2),
        job("b", "b1", 1),
    ];
    let flushes = handle_write_jobs(&mut buffer, jobs);
    assert_eq!(
        flushes,
        vec![flush("b", &["b0"]), flush("a", &["a0", "a1"]), flush("b", &["b1"])]
    );
    assert_eq!(buffer.pending("a"), vec!["a2"]);
    assert!(buffer.pending("b").is_empty());
    assert!(!buffer.contains_key(""));
    assert!(handle_write_jobs(&mut buffer, Vec::new()).is_empty());
    assert_eq!(buffer.pending("a"), vec!["a2"]);
}

#[test]
fn unroutable_job_changes_nothing() {
    let mut buffer = BatchBuffer::new();
    assert_eq!(buffer.dispatch(job("", "x", 1)), None);
    assert!(!buffer.contains_key(""));
    assert!(buffer.pending("").is_empty());
    buffer.dispatch(job("k", "A", 5));
    assert_eq!(buffer.dispatch(job("", "y", 1)), None);
    assert_eq!(buffer.dispatch(WriteJob::default()), None);
    assert_eq!(buffer.pending("k"), vec!["A"]);
    assert!(!buffer.contains_key(""));
}

#[test]
fn batch_of_one_flushes_every_payload() {
    let mut buffer = BatchBuffer::new();
    assert_eq!(buffer.dispatch(job("k", "A", 1)), Some(flush("k", &["A"])));
    assert_eq!(buffer.dispatch(job("k", "B", 1)), Some(flush("k", &["B"])));
    assert!(buffer.pending("k").is_empty());
}

#[test]
fn keys_are_buffered_apart() {
    let mut buffer = BatchBuffer::new();
    assert_eq!(buffer.dispatch(job("k1", "A", 2)), None);
    assert_eq!(buffer.dispatch(job("k2", "X", 2)), None);
    assert_eq!(buffer.dispatch(job("k2", "Y", 2)), Some(flush("k2", &["X", "Y"])));
    assert_eq!(buffer.pending("k1"), vec!["A"]);
    assert!(!buffer.contains_key("k3"));
}

#[test]
fn a_flush_needs_the_length_to_equal_the_batch_size_of_the_job() {
    let mut buffer = BatchBuffer::new();
    assert_eq!(buffer.dispatch(job("k", "A", 5)), None);
    assert_eq!(buffer.dispatch(job("k", "B", 5)), None);
    assert_eq!(buffer.dispatch(job("k", "C", 2)), None);
    assert_eq!(buffer.dispatch(job("k", "D", 0)), None);
    assert_eq!(buffer.dispatch(job("k", "E", -1)), None);
    assert_eq!(
        buffer.dispatch(job("k", "F", 6)),
        Some(flush("k", &["A", "B", "C", "D", "E", "F"]))
    );
    assert!(buffer.pending("k").is_empty());
}

#[test]
fn default_job_is_unroutable_with_batches_of_one() {
    let job = WriteJob::default();
    assert_eq!(job.path, "");
    assert_eq!(job.payload, "");
    assert_eq!(job.n_per_file, 1);
    assert!(job.is_unroutable());
    assert!(!WriteJob { path: "k".to_string(), ..job }.is_unroutable());
}

#[test]
fn message_and_job_convert_both_ways() {
    let message =
        MqttPayload { path: "k".to_string(), payload: "p".to_string(), n_per_file: 2 };
    let job = message.clone().into_write_job();
    assert_eq!(job, WriteJob { path: "k".to_string(), payload: "p".to_string(), n_per_file: 2 });
    assert_eq!(MqttPayload::from_write_job(job), message);
}
