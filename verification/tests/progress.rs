use downloader::http::DownloadError;
use downloader::progress::{
    eta, percent, ReadEvent, StepAction, TimedEvent, TransferState, SPEED_SAMPLES,
};
use downloader::units::time_suffix;

fn window_of(state: &TransferState) -> Vec<usize> {
    state.window.iter().copied().collect()
}

#[test]
fn sample_window_is_bounded_and_evicts_oldest() {
    let mut state = TransferState::new(None);
    state.total_downloaded = 210;
    state.data = vec![0u8; 210];
    for &bytes in &[10usize, 20, 30, 40, 50, 60] {
        state.downloaded_this_sec = bytes;
        state.commit_sample();
        assert!(state.window.len() <= SPEED_SAMPLES);
    }
    assert_eq!(window_of(&state), vec![60, 50, 40, 30, 20]);
}

#[test]
fn empty_window_speed_falls_back_to_length() {
    let state = TransferState::new(Some(4096));
    assert_eq!(state.speed(), 4096);
    let state = TransferState::new(None);
    assert_eq!(state.speed(), 0);
}

#[test]
fn speed_is_mean_of_samples() {
    let mut state = TransferState::new(None);
    state.total_downloaded = 300;
    state.data = vec![0u8; 300];
    for &bytes in &[100usize, 50] {
        state.downloaded_this_sec = bytes;
        state.commit_sample();
    }
    assert_eq!(state.speed(), 75);
}

#[test]
fn percent_and_eta_values() {
    assert_eq!(percent(250, 1000), 25);
    assert_eq!(eta(250, 1000, 50), 15);
    assert_eq!(time_suffix(15), "15s");
    // over-delivery is not clamped in the percentage
    assert_eq!(percent(1500, 1000), 150);
    // ...but the remaining-bytes estimate is
    assert_eq!(eta(1500, 1000, 50), 0);
    // a zero speed yields a zero estimate rather than dividing by zero
    assert_eq!(eta(250, 1000, 0), 0);
}

#[test]
fn render_line_known_length() {
    let mut state = TransferState::new(Some(1000));
    state.total_downloaded = 250;
    state.data = vec![0u8; 250];
    state.downloaded_this_sec = 50;
    state.commit_sample();
    assert_eq!(
        state.render_line(5),
        "250 B / 1000 B ( 25 %)  50 B/s in  5s ETA: 15s"
    );
}

#[test]
fn render_line_unknown_length() {
    let mut state = TransferState::new(None);
    state.total_downloaded = 2048;
    state.data = vec![0u8; 2048];
    state.downloaded_this_sec = 1024;
    state.commit_sample();
    assert_eq!(
        state.render_line(2),
        "Total:   2.0 KiB Speed:   1.0 KiB/s Elapsed:  2s"
    );
}

#[test]
fn interrupted_reads_count_no_progress() {
    let mut state = TransferState::new(None);
    let action = state.step(ReadEvent::Interrupted, 0);
    assert!(matches!(action, StepAction::Proceed));
    let action = state.step(ReadEvent::Interrupted, 500);
    assert!(matches!(action, StepAction::Proceed));
    assert_eq!(state.total_downloaded, 0);
    let action = state.step(ReadEvent::Chunk(vec![7u8; 100]), 600);
    assert!(matches!(action, StepAction::Proceed));
    assert_eq!(state.total_downloaded, 100);
}

#[test]
fn two_interruptions_then_data_succeeds() {
    let events = vec![
        TimedEvent { at_ms: 0, event: ReadEvent::Interrupted },
        TimedEvent { at_ms: 100, event: ReadEvent::Interrupted },
        TimedEvent { at_ms: 200, event: ReadEvent::Chunk(vec![9u8; 100]) },
        TimedEvent { at_ms: 300, event: ReadEvent::Eof },
    ];
    let result = downloader::progress::download_with_progress(events, None);
    assert_eq!(result.unwrap(), vec![9u8; 100]);
}

#[test]
fn hard_read_failure_aborts() {
    let events = vec![
        TimedEvent { at_ms: 0, event: ReadEvent::Chunk(vec![1u8; 10]) },
        TimedEvent { at_ms: 100, event: ReadEvent::Failed },
    ];
    let result = downloader::progress::download_with_progress(events, Some(20));
    assert_eq!(result.unwrap_err(), DownloadError::ReadFailed);
}

#[test]
fn three_chunks_arrive_in_order() {
    let first: Vec<u8> = (0..1024u32).map(|i| (i % 251) as u8).collect();
    let second: Vec<u8> = (0..1024u32).map(|i| (i % 241) as u8).collect();
    let third: Vec<u8> = (0..1024u32).map(|i| (i % 239) as u8).collect();
    let mut expected = Vec::new();
    expected.extend_from_slice(&first);
    expected.extend_from_slice(&second);
    expected.extend_from_slice(&third);

    let mut state = TransferState::new(Some(3072));
    let mut redraws = 0;
    for (i, chunk) in [first, second, third].into_iter().enumerate() {
        let at_ms = 1200 * i as u64;
        match state.step(ReadEvent::Chunk(chunk), at_ms) {
            StepAction::Proceed => {}
            StepAction::Redraw { .. } => redraws += 1,
            _ => panic!("chunk must not finish or abort the transfer"),
        }
        assert!(state.total_downloaded <= 3072);
    }
    let action = state.step(ReadEvent::Eof, 3600);
    assert!(matches!(action, StepAction::Finished { .. }));
    assert_eq!(redraws, 2);
    assert_eq!(state.data, expected);
}

#[test]
fn redraw_erases_the_previous_line_width() {
    let mut state = TransferState::new(None);
    let _ = state.step(ReadEvent::Chunk(vec![0u8; 10]), 0);
    let first_line = match state.step(ReadEvent::Chunk(vec![0u8; 10]), 1500) {
        StepAction::Redraw { erase, line } => {
            assert_eq!(erase, 0);
            line
        }
        _ => panic!("a tick must redraw"),
    };
    match state.step(ReadEvent::Chunk(vec![0u8; 10]), 3000) {
        StepAction::Redraw { erase, .. } => assert_eq!(erase, first_line.chars().count()),
        _ => panic!("a tick must redraw"),
    }
}

#[test]
fn eof_renders_one_final_line() {
    let events = vec![TimedEvent { at_ms: 0, event: ReadEvent::Eof }];
    let result = downloader::progress::download_with_progress(events, Some(0));
    assert_eq!(result.unwrap(), Vec::<u8>::new());
}
