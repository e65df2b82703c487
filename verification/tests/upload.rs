use bytes::Bytes;
use mqtt_adls_bridge::buffer::Flush;
use mqtt_adls_bridge::text::split_on;
use mqtt_adls_bridge::upload::{
    join_lines, plan_batch_upload, upload_data_single, upload_flush, upload_json_multiline,
    StorageTarget, StoreStep, Upload,
};

fn texts(items: &[&str]) -> Vec<String> {
    items.iter().map(|s| s.to_string()).collect()
}

#[test]
fn batch_is_stored_in_one_piece_under_a_stamped_name() {
    let upload = plan_batch_upload(
        "raw".to_string(),
        "rust-tests/k1",
        &texts(&["A", "B"]),
        "json",
        1652166490,
        "67e55044-10b1-426f-9247-bb680e5fe0c8",
    )
    .unwrap();
    assert_eq!(
        upload,
        Upload {
            container: "raw".to_string(),
            file_path: "rust-tests/k1/1652166490-67e55044-10b1-426f-9247-bb680e5fe0c8.json"
                .to_string(),
            steps: vec![
                StoreStep::Create,
                StoreStep::Append { offset: 0, data: Bytes::from("A\nB") },
                StoreStep::FlushAndClose { offset: 3 },
            ],
        }
    );
}

#[test]
fn offsets_count_bytes_not_characters() {
    let upload =
        plan_batch_upload("c".to_string(), "d", &texts(&["é", "日本"]), "txt", -5, "id").unwrap();
    assert_eq!(upload.file_path, "d/-5-id.txt");
    assert_eq!(
        upload.steps,
        vec![
            StoreStep::Create,
            StoreStep::Append { offset: 0, data: Bytes::from("é\n日本") },
            StoreStep::FlushAndClose { offset: 9 },
        ]
    );
}

#[test]
fn empty_batch_stores_an_empty_object() {
    let upload = plan_batch_upload("c".to_string(), "d", &Vec::new(), "json", 0, "u").unwrap();
    assert_eq!(upload.file_path, "d/0-u.json");
    assert_eq!(
        upload.steps,
        vec![
            StoreStep::Create,
            StoreStep::Append { offset: 0, data: Bytes::new() },
            StoreStep::FlushAndClose { offset: 0 },
        ]
    );
}

#[test]
fn content_splits_back_into_the_payloads() {
    for payloads in [
        texts(&["{\"a\":1}", "{\"a\":2}", "{\"a\":3}"]),
        texts(&["only"]),
        texts(&["", ""]),
        texts(&[""]),
        texts(&["a", "", "b"]),
    ] {
        let content = join_lines(&payloads);
        assert_eq!(split_on(&content, '\n'), payloads);
        let upload =
            plan_batch_upload("c".to_string(), "d", &payloads, "json", 1, "u").unwrap();
        match &upload.steps[1] {
            StoreStep::Append { data, .. } => {
                let stored = std::str::from_utf8(data).unwrap();
                assert_eq!(split_on(stored, '\n'), payloads);
            }
            other => panic!("{:?}", other),
        }
    }
    assert_eq!(join_lines(&texts(&["A", "B", "C"])), "A\nB\nC");
    assert_eq!(join_lines(&Vec::new()), "");
}

#[test]
fn fresh_uploads_get_distinct_names() {
    let data = texts(&["A", "B"]);
    let first = upload_json_multiline(
        "raw".to_string(),
        "rust-tests/k".to_string(),
        data.clone(),
        "json".to_string(),
    )
    .unwrap();
    let second = upload_json_multiline(
        "raw".to_string(),
        "rust-tests/k".to_string(),
        data,
        "json".to_string(),
    )
    .unwrap();
    assert_ne!(first.file_path, second.file_path);
    for upload in [&first, &second] {
        assert_eq!(upload.container, "raw");
        assert!(upload.file_path.starts_with("rust-tests/k/"));
        assert!(upload.file_path.ends_with(".json"));
        let name = &upload.file_path["rust-tests/k/".len()..upload.file_path.len() - 5];
        let (seconds, identifier) = name.split_once('-').unwrap();
        assert!(seconds.parse::<i64>().unwrap() > 1_600_000_000);
        assert_eq!(identifier.len(), 36);
        assert_eq!(
            upload.steps,
            vec![
                StoreStep::Create,
                StoreStep::Append { offset: 0, data: Bytes::from("A\nB") },
                StoreStep::FlushAndClose { offset: 3 },
            ]
        );
    }
}

#[test]
fn items_are_appended_one_after_the_other() {
    let upload =
        upload_data_single("raw".to_string(), "dir/file".to_string(), texts(&["ab", "", "cdé"]))
            .unwrap();
    assert_eq!(
        upload,
        Upload {
            container: "raw".to_string(),
            file_path: "dir/file".to_string(),
            steps: vec![
                StoreStep::Create,
                StoreStep::Append { offset: 0, data: Bytes::from("ab") },
                StoreStep::Append { offset: 2, data: Bytes::new() },
                StoreStep::Append { offset: 2, data: Bytes::from("cdé") },
                StoreStep::FlushAndClose { offset: 6 },
            ],
        }
    );
    let empty = upload_data_single("raw".to_string(), "f".to_string(), Vec::new()).unwrap();
    assert_eq!(empty.steps, vec![StoreStep::Create, StoreStep::FlushAndClose { offset: 0 }]);
}

#[test]
fn flush_goes_under_the_targets_prefix() {
    let target = StorageTarget::default();
    assert_eq!(target.container, "raw");
    assert_eq!(target.prefix, "rust-tests");
    assert_eq!(target.extension, "json");
    let flush = Flush { path: "master/status/host=h".to_string(), payloads: texts(&["A", "B"]) };
    let upload = upload_flush(&target, flush).unwrap();
    assert_eq!(upload.container, "raw");
    assert!(upload.file_path.starts_with("rust-tests/master/status/host=h/"));
    assert!(upload.file_path.ends_with(".json"));
    assert_eq!(upload.steps.len(), 3);
    assert_eq!(upload.steps[1], StoreStep::Append { offset: 0, data: Bytes::from("A\nB") });
    assert_eq!(upload.steps[2], StoreStep::FlushAndClose { offset: 3 });
}
