use mcp::PathKind;
use mcp::engine::CHUNK_SIZE;
use mcp::engine::Chunk;
use mcp::engine::copy_process;
use mcp::engine::run_once_into;
use mcp::engine::split_into_chunks;
use mcp::engine::writer_content;
use mcp::enumerate::InputRecord;
use mcp::enumerate::enumerate;
use mcp::progress::ProgressState;
use mcp::validate::OutputTarget;
use mcp::validate::ValidationOutcome;
use mcp::validate::decide;
use mcp::validate::planned_destinations;
use mcp::validate::validate;

#[test]
fn chunking_empty_source_gives_no_chunks() {
    let chunks = split_into_chunks(&vec![]);
    assert_eq!(chunks.len(), 0);
}

#[test]
fn chunking_small_source_gives_one_chunk() {
    let src = b"ten bytes!".to_vec();
    let chunks = split_into_chunks(&src);
    assert_eq!(chunks.len(), 1);
    assert_eq!(chunks[0].data, src);
}

#[test]
fn chunking_cuts_at_chunk_size() {
    let mut src = vec![7u8; CHUNK_SIZE];
    src.push(9);
    let chunks = split_into_chunks(&src);
    assert_eq!(chunks.len(), 2);
    assert_eq!(chunks[0].data.len(), CHUNK_SIZE);
    assert_eq!(chunks[1].data, vec![9u8]);
    assert!(chunks[0].data.iter().all(|b| *b == 7));
}

#[test]
fn chunk_new_refuses_oversized_buffer() {
    assert!(Chunk::new(vec![0u8; CHUNK_SIZE]).is_some());
    assert!(Chunk::new(vec![0u8; CHUNK_SIZE + 1]).is_none());
}

#[test]
fn writer_reassembles_the_stream() {
    let src = vec![3u8; CHUNK_SIZE * 2 + 17];
    let chunks = split_into_chunks(&src);
    assert_eq!(chunks.len(), 3);
    assert_eq!(writer_content(&chunks), src);
}

#[test]
fn copy_process_duplicates_each_source_to_every_destination() {
    let sources = vec![b"first".to_vec(), b"second source".to_vec()];
    let result = copy_process(&sources, 3);
    assert_eq!(result.len(), 2);
    for (i, per_dest) in result.iter().enumerate() {
        assert_eq!(per_dest.len(), 3);
        for content in per_dest {
            assert_eq!(content, &sources[i]);
        }
    }
}

#[test]
fn empty_source_yields_empty_destinations() {
    let result = copy_process(&vec![vec![]], 2);
    assert_eq!(result.len(), 1);
    assert_eq!(result[0].len(), 2);
    assert_eq!(result[0][0], Vec::<u8>::new());
    assert_eq!(result[0][1], Vec::<u8>::new());
}

#[test]
fn run_twice_same_as_once() {
    let src = b"payload that overwrites".to_vec();
    let mut dest = b"stale previous content, longer than the source".to_vec();
    run_once_into(&mut dest, &src);
    let after_once = dest.clone();
    run_once_into(&mut dest, &src);
    assert_eq!(dest, after_once);
    assert_eq!(dest, src);
}

#[test]
fn run_on_empty_source_truncates() {
    let mut dest = b"old".to_vec();
    run_once_into(&mut dest, &vec![]);
    assert_eq!(dest, Vec::<u8>::new());
}

#[test]
fn progress_emits_after_one_second() {
    let mut st = ProgressState::new(0);
    let r = st.record(500, 10, 10, 100, true);
    assert!(r.is_none());
    let r = st.record(1500, 40, 50, 100, true);
    let up = r.unwrap();
    assert_eq!(up.percent, 50);
    assert_eq!(up.bytes_in_window, 50);
    assert_eq!(up.elapsed_ms, 1500);
    let r = st.record(1800, 25, 75, 100, true);
    assert!(r.is_none());
}

#[test]
fn progress_silent_when_disabled() {
    let mut st = ProgressState::new(0);
    assert!(st.record(5000, 10, 10, 10, false).is_none());
}

#[test]
fn progress_percent_truncates() {
    let mut st = ProgressState::new(0);
    let up = st.record(2000, 1, 1, 3, true).unwrap();
    assert_eq!(up.percent, 33);
}

#[test]
fn single_file_to_directory_and_fresh_file() {
    let inputs = vec![InputRecord {
        path: b"report.txt".to_vec(),
        kind: PathKind::File,
        discovered: vec![],
    }];
    let sources = enumerate(&inputs).unwrap();
    assert_eq!(sources.len(), 1);
    let outputs = vec![
        OutputTarget { path: b"out1/".to_vec(), kind: PathKind::Dir },
        OutputTarget { path: b"out2/report.txt".to_vec(), kind: PathKind::Missing },
    ];
    let planned = planned_destinations(&sources, &outputs);
    assert_eq!(planned.len(), 2);
    assert_eq!(planned[0].final_path, b"out1/report.txt".to_vec());
    assert_eq!(planned[1].final_path, b"out2/report.txt".to_vec());
    let dest_is_file = vec![false, false];
    let outcome = validate(&sources, &outputs, &dest_is_file);
    assert_eq!(outcome, ValidationOutcome::Accept);
    assert_eq!(decide(&outcome, false), Ok(()));
    let contents = b"1234567890".to_vec();
    let result = copy_process(&vec![contents.clone()], 2);
    assert_eq!(result[0][0], contents);
    assert_eq!(result[0][1], contents);
}

#[test]
fn broadcast_channel_delivers_stream_to_every_subscriber() {
    let src = vec![5u8; CHUNK_SIZE + 123];
    let chunks = split_into_chunks(&src);
    assert_eq!(chunks.len(), 2);
    let (send, recv) = multiqueue2::broadcast_queue::<Chunk>(4);
    let mut streams = mcp::channel::subscribe_writers(&recv, 2);
    assert_eq!(streams.len(), 2);
    let stream_b = streams.pop().unwrap();
    let stream_a = streams.pop().unwrap();
    recv.unsubscribe();
    for chunk in &chunks {
        loop {
            if send.try_send(chunk.clone()).is_ok() {
                break;
            }
        }
    }
    drop(send);
    let mut got_a: Vec<Chunk> = Vec::new();
    while let Ok(c) = stream_a.recv() {
        got_a.push(c);
    }
    let mut got_b: Vec<Chunk> = Vec::new();
    while let Ok(c) = stream_b.recv() {
        got_b.push(c);
    }
    assert_eq!(writer_content(&got_a), src);
    assert_eq!(writer_content(&got_b), src);
}
