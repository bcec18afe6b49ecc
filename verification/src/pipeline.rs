use vstd::prelude::*;
use vstd::string::StringExecFns;
use crate::config::Snapshot;
use crate::dispatch::{substitute_spec, substitute_url};
use crate::encode::{build_download_url, download_url_spec};
use crate::matcher::{any_pattern_matches, pattern_set_is_match};
use crate::parser::{parse_torrent_announcement, spec_parse};

verus! {

/// What one incoming chat line leads to.
#[derive(Debug, PartialEq, Eq)]
pub enum LineOutcome {
    /// The line is not an announcement; it is skipped.
    NotAnnouncement,
    /// The line parsed but matches none of the configured patterns; the
    /// built URL is discarded and nothing is dispatched.
    NoMatch,
    /// The line parsed and matched: the command line to hand to the shell.
    Dispatch { command: String },
}

/// One pass of the message pipeline over one incoming line, deciding against
/// exactly the given snapshot: parse the line, and on success test the raw
/// line against the snapshot's pattern set; only a parsed and matched line
/// dispatches, with the command built from the snapshot's template, the
/// snapshot's secret and the parsed title and id.
pub fn process_line(snapshot: &Snapshot, line: &str) -> (r: LineOutcome)
    requires
        snapshot.wf(),
    ensures
        (r is NotAnnouncement) <==> (spec_parse(line@) is None),
        (r is NoMatch) <==> (spec_parse(line@) is Some && !any_pattern_matches(
            snapshot.config.torrent_patterns.deep_view(),
            line@,
        )),
        (r is Dispatch) <==> (spec_parse(line@) is Some && any_pattern_matches(
            snapshot.config.torrent_patterns.deep_view(),
            line@,
        )),
        r is Dispatch ==> (r->command)@ == substitute_spec(
            snapshot.config.on_new_torrent@,
            download_url_spec(
                (spec_parse(line@)->0).1,
                snapshot.config.user_secret@,
                (spec_parse(line@)->0).0,
            ),
        ),
{
    match parse_torrent_announcement(String::from_str(line)) {
        None => LineOutcome::NotAnnouncement,
        Some((title, id)) => {
            let url = build_download_url(
                id.as_str(),
                snapshot.config.user_secret.as_str(),
                title.as_str(),
            );
            if pattern_set_is_match(&snapshot.matcher, line) {
                let command = substitute_url(snapshot.config.on_new_torrent.as_str(), url.as_str());
                LineOutcome::Dispatch { command }
            } else {
                LineOutcome::NoMatch
            }
        },
    }
}

} // verus!
