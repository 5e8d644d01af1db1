use imagewall::progress::Progress;
use imagewall::types::ImageItem;
use imagewall::worker::{process_items, run_item, AttemptScript, ItemDownload, ItemPhase};

fn stream(chunks: Vec<Vec<u8>>, clean: bool) -> AttemptScript {
    AttemptScript::Stream { chunks, clean }
}

fn plain_item(pid: &str) -> ImageItem {
    ImageItem {
        pid: pid.to_string(),
        mid: "out".to_string(),
        timeline_month: String::new(),
        timeline_year: String::new(),
    }
}

#[test]
fn clean_first_attempt_writes_all_chunks() {
    let scripts = vec![stream(vec![b"he".to_vec(), b"llo".to_vec()], true)];
    let st = run_item(1, &scripts);
    assert_eq!(st.phase, ItemPhase::Succeeded);
    assert_eq!(st.file, b"hello".to_vec());
    assert_eq!(st.started, 1);
}

#[test]
fn retry_truncates_stale_partial_content() {
    // Two failures first — one that streams partial bytes — then a clean
    // attempt: the file holds exactly the successful attempt's bytes, with
    // nothing of the stale partial content in front of them.
    let scripts = vec![
        AttemptScript::ConnectFail,
        stream(vec![b"junkjunkjunk".to_vec()], false),
        stream(vec![b"good".to_vec()], true),
    ];
    let st = run_item(3, &scripts);
    assert_eq!(st.phase, ItemPhase::Succeeded);
    assert_eq!(st.file, b"good".to_vec());
    assert_eq!(st.started, 3);
}

#[test]
fn exhausted_budget_abandons_item() {
    let scripts = vec![
        stream(vec![b"part".to_vec()], false),
        AttemptScript::ConnectFail,
        stream(vec![b"never".to_vec()], true),
    ];
    let st = run_item(2, &scripts);
    assert_eq!(st.phase, ItemPhase::Abandoned);
    assert_eq!(st.started, 2);
    // The last attempt never connected, so the truncated file stays empty.
    assert_eq!(st.file, Vec::<u8>::new());
}

#[test]
fn abandoned_item_may_keep_partial_bytes() {
    let scripts = vec![stream(vec![b"par".to_vec(), b"tial".to_vec()], false)];
    let st = run_item(1, &scripts);
    assert_eq!(st.phase, ItemPhase::Abandoned);
    assert_eq!(st.file, b"partial".to_vec());
}

#[test]
fn zero_budget_means_immediate_abandonment() {
    let scripts: Vec<AttemptScript> = vec![];
    let st = run_item(0, &scripts);
    assert_eq!(st.phase, ItemPhase::Abandoned);
    assert_eq!(st.started, 0);
    assert_eq!(st.file, Vec::<u8>::new());
}

#[test]
fn state_machine_steps_mirror_file_writes() {
    let mut st = ItemDownload::begin(2);
    st.start_attempt();
    st.chunk_received(b"abc");
    st.read_error();
    assert_eq!(st.file, b"abc".to_vec());
    st.start_attempt();
    assert_eq!(st.file, Vec::<u8>::new());
    st.chunk_received(b"xy");
    st.stream_ended();
    assert_eq!(st.phase, ItemPhase::Succeeded);
    assert_eq!(st.file, b"xy".to_vec());
}

#[test]
fn items_done_counts_every_item_processed() {
    // One failing item between two successes: the drain continues past the
    // abandonment, and items_done counts all three.
    let items = vec![plain_item("a"), plain_item("b"), plain_item("c")];
    let scripts = vec![
        vec![stream(vec![b"one".to_vec()], true), AttemptScript::ConnectFail],
        vec![AttemptScript::ConnectFail, AttemptScript::ConnectFail],
        vec![stream(vec![b"three".to_vec()], true), AttemptScript::ConnectFail],
    ];
    let mut progress = Progress::new();
    progress.note_enqueued();
    progress.note_enqueued();
    progress.note_enqueued();
    let outcomes = process_items(&items, &scripts, 2, &mut progress);
    assert_eq!(progress.items_done, 3);
    assert_eq!(progress.items_total, 3);
    assert_eq!(outcomes.len(), 3);
    assert_eq!(outcomes[0].phase, ItemPhase::Succeeded);
    assert_eq!(outcomes[1].phase, ItemPhase::Abandoned);
    assert_eq!(outcomes[2].phase, ItemPhase::Succeeded);
    assert_eq!(outcomes[2].file, b"three".to_vec());
}

#[test]
fn byte_counter_saturates() {
    let mut progress = Progress::new();
    progress.note_bytes(10);
    assert_eq!(progress.bytes_done, 10);
    progress.note_bytes(u64::MAX);
    assert_eq!(progress.bytes_done, u64::MAX);
}
