use monocle_cli::output::{
    files_text, show_progress, total_size, MessageWriter, Progress, Step, BATCH,
};

#[test]
fn messages_are_shown_one_by_one() {
    let mut writer: MessageWriter<u32> = MessageWriter::new(false, false);
    for n in 0..3 {
        assert_eq!(writer.accept(n), Step::Print(n));
    }
    assert_eq!(writer.message_count(), 3);
    assert_eq!(writer.finish(7, ""), (None, None));
}

#[test]
fn messages_are_stored_in_batches() {
    let mut writer: MessageWriter<usize> = MessageWriter::new(true, false);
    let total = 2 * BATCH + 3;
    let mut stored: Vec<usize> = vec![];
    let mut batches = 0;
    for n in 0..total {
        match writer.accept(n) {
            Step::Keep => {}
            Step::Store(batch) => {
                assert_eq!(batch.len(), 100_000);
                batches += 1;
                stored.extend(batch);
            }
            Step::Print(_) => panic!("shown"),
        }
    }
    assert_eq!(batches, 2);
    let (rest, said) = writer.finish(12, "out.sqlite3");
    assert_eq!(rest.as_ref().map(|r| r.len()), Some(3));
    stored.extend(rest.unwrap());
    assert_eq!(stored, (0..total).collect::<Vec<_>>());
    assert_eq!(
        said.as_deref(),
        Some("processed 12 files, found 200003 messages, written into file out.sqlite3")
    );
}

#[test]
fn nothing_is_left_after_a_whole_batch() {
    let mut writer: MessageWriter<()> = MessageWriter::new(false, true);
    for _ in 0..BATCH - 1 {
        assert_eq!(writer.accept(()), Step::Keep);
    }
    assert!(matches!(writer.accept(()), Step::Store(_)));
    let (rest, said) = writer.finish(1, "");
    assert!(rest.is_none());
    assert_eq!(
        said.as_deref(),
        Some("processed 1 files, found 100000 messages, written into file ")
    );
}

#[test]
fn progress_is_shown_where_messages_are_stored() {
    assert!(!show_progress(false, false));
    assert!(show_progress(true, false));
    assert!(show_progress(false, true));
    assert!(show_progress(true, true));
    let mut progress = Progress::new();
    assert_eq!(progress.add_file(0), "found 0 messages");
    assert_eq!(progress.add_file(u32::MAX), "found 4294967295 messages");
    assert_eq!(progress.add_file(1), "found 4294967296 messages");
    assert_eq!(progress.total, 4_294_967_296);
}

#[test]
fn sizes_are_added_up() {
    assert_eq!(total_size(&vec![]), Some(0));
    assert_eq!(total_size(&vec![1, 2, -4]), Some(-1));
    assert_eq!(total_size(&vec![i64::MAX, 1]), None);
    assert_eq!(total_size(&vec![i64::MAX, 1, -1]), None);
    assert_eq!(total_size(&vec![i64::MAX, -1, 1]), Some(i64::MAX));
    assert_eq!(total_size(&vec![i64::MIN, -1]), None);
    assert_eq!(files_text(3, 1024), "total of 3 files, 1024 bytes to parse");
}
