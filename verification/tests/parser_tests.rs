use announcebot::parser::parse_torrent_announcement;

const SAMPLE: &str = "New Torrent Announcement: <TV :: Episodes HD>  Name:'Antiques Roadshow US S24E03 Winterthur Museum Garden and Library Hour 3 720p WEB H264-GIMINI' uploaded by 'Anonymous' -  https://www.torrentleech.org/torrent/1558970";

#[test]
fn test_parse_torrent_announcement() {
    let example_message = SAMPLE.to_owned();
    assert_eq!(
        parse_torrent_announcement(example_message),
        Some((
            "Antiques Roadshow US S24E03 Winterthur Museum Garden and Library Hour 3 720p WEB H264-GIMINI".to_string(),
            "1558970".to_string()
        ))
    );
    let example_message = "New Torrent Announcement: <TV :: Episodes HD>  Name:'The Greatest Dancer S02E05 720p HDTV x264-QPEL' uploaded by 'Anonymous' -  https://www.torrentleech.org/torrent/1559045".to_owned();
    assert_eq!(
        parse_torrent_announcement(example_message),
        Some((
            "The Greatest Dancer S02E05 720p HDTV x264-QPEL".to_string(),
            "1559045".to_string()
        ))
    );
}

#[test]
fn parse_rejects_missing_name_segment() {
    let line = "New Torrent Announcement: <TV>  'A Title' uploaded by 'Anonymous' -  https://www.torrentleech.org/torrent/1558970";
    assert_eq!(parse_torrent_announcement(line.to_owned()), None);
}

#[test]
fn parse_rejects_missing_uploader_clause() {
    let line = "x: <T>  Name:'A' -  https://www.torrentleech.org/torrent/5";
    assert_eq!(parse_torrent_announcement(line.to_owned()), None);
}

#[test]
fn parse_rejects_missing_torrent_url() {
    let line = "x: <T>  Name:'A' uploaded by 'B' -  https://example.org/torrent/5";
    assert_eq!(parse_torrent_announcement(line.to_owned()), None);
}

#[test]
fn parse_rejects_url_without_digits() {
    let line = "x: <T>  Name:'A' uploaded by 'B' -  https://www.torrentleech.org/torrent/";
    assert_eq!(parse_torrent_announcement(line.to_owned()), None);
}

#[test]
fn parse_rejects_empty_title() {
    let line = "x: <T>  Name:'' uploaded by 'B' -  https://www.torrentleech.org/torrent/5";
    assert_eq!(parse_torrent_announcement(line.to_owned()), None);
}

#[test]
fn parse_rejects_single_space_before_name() {
    let line = "x: <T> Name:'A' uploaded by 'B' -  https://www.torrentleech.org/torrent/5";
    assert_eq!(parse_torrent_announcement(line.to_owned()), None);
}

#[test]
fn parse_rejects_plain_chatter() {
    assert_eq!(parse_torrent_announcement("no announcement here".to_owned()), None);
    assert_eq!(parse_torrent_announcement(String::new()), None);
}

#[test]
fn parse_takes_greedy_title() {
    let line = "x: <T>  Name:'A' uploaded by 'B' uploaded by 'C' -  https://www.torrentleech.org/torrent/7";
    assert_eq!(
        parse_torrent_announcement(line.to_owned()),
        Some(("A' uploaded by 'B".to_string(), "7".to_string()))
    );
}

#[test]
fn parse_stops_id_at_first_non_digit() {
    let line = "x: <T>  Name:'A' uploaded by 'B' -  https://www.torrentleech.org/torrent/42 trailing junk";
    assert_eq!(
        parse_torrent_announcement(line.to_owned()),
        Some(("A".to_string(), "42".to_string()))
    );
}

#[test]
fn parse_agrees_with_extraction_pattern() {
    let pattern = r".*: <.+>  Name:'(.+)' uploaded by '(?:.+)' -  https://www.torrentleech.org/torrent/(\d+)";
    let re = regex::Regex::new(pattern).unwrap();
    let lines = [
        SAMPLE,
        "x: <T>  Name:'A' uploaded by 'B' uploaded by 'C' -  https://www.torrentleech.org/torrent/7",
        "x: <T>  Name:'A' uploaded by 'B' -  https://www.torrentleech.org/torrent/42 trailing junk",
        "x: <T>  Name:'A: <B>  Name:C' uploaded by 'D' -  https://www.torrentleech.org/torrent/99",
        "x: <T>  Name:'' uploaded by 'B' -  https://www.torrentleech.org/torrent/5",
        "x: <T>  Name:'A' -  https://www.torrentleech.org/torrent/5",
        "prefix with 'quotes' and: <marks: <T>  Name:'A' uploaded by 'B' -  https://www.torrentleech.org/torrent/314159",
        "no announcement here",
    ];
    for line in lines {
        let expected = re.captures(line).map(|g| {
            (g.get(1).unwrap().as_str().to_string(), g.get(2).unwrap().as_str().to_string())
        });
        assert_eq!(parse_torrent_announcement(line.to_owned()), expected, "line: {line}");
    }
}
