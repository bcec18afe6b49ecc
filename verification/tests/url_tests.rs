use announcebot::dispatch::{classify_run, substitute_url, DispatchOutcome};
use announcebot::encode::{build_download_url, percent_encode};

#[test]
fn encode_leaves_plain_text_alone() {
    assert_eq!(percent_encode("abc-123_XYZ.~"), "abc-123_XYZ.~".to_string());
    assert_eq!(percent_encode(""), "".to_string());
}

#[test]
fn encode_escapes_the_unsafe_set() {
    assert_eq!(percent_encode(" "), "%20".to_string());
    assert_eq!(percent_encode("\""), "%22".to_string());
    assert_eq!(percent_encode("<"), "%3C".to_string());
    assert_eq!(percent_encode(">"), "%3E".to_string());
    assert_eq!(percent_encode("`"), "%60".to_string());
    assert_eq!(percent_encode("\u{1}\u{1f}\u{7f}"), "%01%1F%7F".to_string());
    assert_eq!(percent_encode("a b"), "a%20b".to_string());
}

#[test]
fn encode_passes_other_unicode_through() {
    assert_eq!(percent_encode("café"), "café".to_string());
    assert_eq!(percent_encode("è <é>"), "è%20%3Cé%3E".to_string());
}

#[test]
fn url_round_trip_with_reserved_characters() {
    let url = build_download_url("1558970", "s3cr3t", "A Title: <Test>");
    assert_eq!(
        url,
        "https://www.torrentleech.org/rss/download/1558970/s3cr3t/A%20Title:%20%3CTest%3E"
            .to_string()
    );
    assert!(url.contains("A%20Title:%20%3CTest%3E"));
    assert!(url.contains("1558970"));
}

#[test]
fn url_for_sample_announcement() {
    let url = build_download_url(
        "1558970",
        "sekrit",
        "Antiques Roadshow US S24E03 Winterthur Museum Garden and Library Hour 3 720p WEB H264-GIMINI",
    );
    assert_eq!(
        url,
        "https://www.torrentleech.org/rss/download/1558970/sekrit/Antiques%20Roadshow%20US%20S24E03%20Winterthur%20Museum%20Garden%20and%20Library%20Hour%203%20720p%20WEB%20H264-GIMINI".to_string()
    );
}

#[test]
fn substitute_replaces_the_placeholder_once_placed() {
    assert_eq!(substitute_url("echo $url", "U"), "echo U".to_string());
    assert_eq!(substitute_url("$url", "abc"), "abc".to_string());
    assert_eq!(substitute_url("a $url b $url c", "X"), "a X b X c".to_string());
}

#[test]
fn substitute_leaves_templates_without_placeholder_alone() {
    assert_eq!(substitute_url("echo hello", "U"), "echo hello".to_string());
    assert_eq!(substitute_url("echo $ur", "U"), "echo $ur".to_string());
    assert_eq!(substitute_url("", "U"), "".to_string());
}

#[test]
fn substitute_does_not_rescan_substituted_text() {
    assert_eq!(substitute_url("run $url", "$url-x"), "run $url-x".to_string());
}

#[test]
fn classify_spawn_failure() {
    assert_eq!(
        classify_run(Err("boom".to_string())),
        DispatchOutcome::SpawnFailed { reason: "boom".to_string() }
    );
}

#[test]
fn classify_empty_stderr_as_success() {
    assert_eq!(classify_run(Ok(Vec::new())), DispatchOutcome::Success);
}

#[test]
fn classify_nonempty_stderr_as_soft_failure() {
    assert_eq!(
        classify_run(Ok(vec![101u8, 114u8, 114u8])),
        DispatchOutcome::RanWithStderr { stderr: vec![101u8, 114u8, 114u8] }
    );
}
