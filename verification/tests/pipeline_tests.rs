use announcebot::config::{BotConfig, Snapshot};
use announcebot::dispatch::{classify_run, DispatchOutcome};
use announcebot::pipeline::{process_line, LineOutcome};
use announcebot::store::ConfigStore;

const SAMPLE: &str = "New Torrent Announcement: <TV :: Episodes HD>  Name:'Antiques Roadshow US S24E03 Winterthur Museum Garden and Library Hour 3 720p WEB H264-GIMINI' uploaded by 'Anonymous' -  https://www.torrentleech.org/torrent/1558970";

fn config(patterns: &[&str]) -> BotConfig {
    BotConfig {
        nickname: "bot".to_string(),
        server: "irc.example.org".to_string(),
        channels: vec!["#announce".to_string()],
        use_ssl: true,
        torrent_patterns: patterns.iter().map(|p| p.to_string()).collect(),
        user_secret: "sekrit".to_string(),
        on_new_torrent: "echo $url".to_string(),
    }
}

#[test]
fn end_to_end_matched_announcement_dispatches_once() {
    let store = ConfigStore::new(Snapshot::build(config(&[".*GIMINI.*"])).ok().unwrap());
    let snapshot = store.read();
    let outcome = process_line(&snapshot, SAMPLE);
    match outcome {
        LineOutcome::Dispatch { command } => {
            assert_eq!(
                command,
                "echo https://www.torrentleech.org/rss/download/1558970/sekrit/Antiques%20Roadshow%20US%20S24E03%20Winterthur%20Museum%20Garden%20and%20Library%20Hour%203%20720p%20WEB%20H264-GIMINI".to_string()
            );
            assert!(command.contains("1558970"));
            assert!(command.contains("Antiques%20Roadshow"));
            assert_eq!(classify_run(Ok(Vec::new())), DispatchOutcome::Success);
        },
        other => panic!("expected a dispatch, got {other:?}"),
    }
}

#[test]
fn parsed_line_matching_no_pattern_dispatches_nothing() {
    let snapshot = Snapshot::build(config(&[".*NOPE.*"])).ok().unwrap();
    assert_eq!(process_line(&snapshot, SAMPLE), LineOutcome::NoMatch);
}

#[test]
fn empty_pattern_set_matches_nothing() {
    let snapshot = Snapshot::build(config(&[])).ok().unwrap();
    assert_eq!(process_line(&snapshot, SAMPLE), LineOutcome::NoMatch);
}

#[test]
fn unparsed_line_is_skipped_even_when_patterns_match() {
    let snapshot = Snapshot::build(config(&[".*"])).ok().unwrap();
    assert_eq!(
        process_line(&snapshot, "just chatting about GIMINI"),
        LineOutcome::NotAnnouncement
    );
}

#[test]
fn matching_tests_the_raw_line_not_the_title() {
    // The pattern matches the announcement's prefix, which is not part of
    // the extracted title: the raw line decides, so this dispatches.
    let snapshot = Snapshot::build(config(&["^New Torrent Announcement.*"])).ok().unwrap();
    assert!(matches!(process_line(&snapshot, SAMPLE), LineOutcome::Dispatch { .. }));
}
