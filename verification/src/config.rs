use vstd::prelude::*;
use crate::matcher::{compile_pattern_set, patterns_compile, set_patterns};

verus! {

/// The bot's validated configuration, an immutable value once constructed.
pub struct BotConfig {
    pub nickname: String,
    pub server: String,
    pub channels: Vec<String>,
    pub use_ssl: bool,
    pub torrent_patterns: Vec<String>,
    pub user_secret: String,
    pub on_new_torrent: String,
}

/// A pattern of the configuration was rejected by the pattern compiler.
#[derive(Debug, PartialEq, Eq)]
pub struct PatternError {
    pub message: String,
}

/// A configuration paired with the matcher compiled from its own pattern
/// list: the unit of atomic replacement and atomic read.
pub struct Snapshot {
    pub config: BotConfig,
    pub matcher: regex::RegexSet,
}

fn clone_string_vec(v: &Vec<String>) -> (r: Vec<String>)
    ensures
        r@ == v@,
{
    let mut r: Vec<String> = Vec::new();
    let mut i: usize = 0;
    while i < v.len()
        invariant
            i <= v.len(),
            r@ == v@.subrange(0, i as int),
        decreases v.len() - i,
    {
        r.push(v[i].clone());
        i = i + 1;
        proof {
            assert(r@ =~= v@.subrange(0, i as int));
        }
    }
    proof {
        assert(r@ =~= v@);
    }
    r
}

/// Two configurations that agree in every field.
pub open spec fn config_equiv(a: BotConfig, b: BotConfig) -> bool {
    &&& a.nickname == b.nickname
    &&& a.server == b.server
    &&& a.channels@ == b.channels@
    &&& a.use_ssl == b.use_ssl
    &&& a.torrent_patterns@ == b.torrent_patterns@
    &&& a.user_secret == b.user_secret
    &&& a.on_new_torrent == b.on_new_torrent
}

impl BotConfig {
    /// A copy that agrees with this configuration in every field.
    pub fn duplicate(&self) -> (r: BotConfig)
        ensures
            config_equiv(r, *self),
    {
        BotConfig {
            nickname: self.nickname.clone(),
            server: self.server.clone(),
            channels: clone_string_vec(&self.channels),
            use_ssl: self.use_ssl,
            torrent_patterns: clone_string_vec(&self.torrent_patterns),
            user_secret: self.user_secret.clone(),
            on_new_torrent: self.on_new_torrent.clone(),
        }
    }
}

impl Snapshot {
    /// Pairing invariant: the matcher is the compiled form of exactly this
    /// configuration's pattern list, never of an older or newer one.
    pub open spec fn wf(self) -> bool {
        set_patterns(self.matcher) == self.config.torrent_patterns.deep_view()
    }

    /// Compiles the configuration's pattern list and pairs the result with
    /// the configuration. All-or-nothing: one invalid pattern rejects the
    /// whole configuration and nothing is built.
    pub fn build(config: BotConfig) -> (r: Result<Snapshot, PatternError>)
        ensures
            r is Ok <==> patterns_compile(config.torrent_patterns.deep_view()),
            r is Ok ==> (r->Ok_0).wf() && (r->Ok_0).config == config,
    {
        match compile_pattern_set(&config.torrent_patterns) {
            Ok(matcher) => Ok(Snapshot { config, matcher }),
            Err(message) => Err(PatternError { message }),
        }
    }

    /// An agreeing configuration paired with a matcher built from the same
    /// pattern list.
    pub fn duplicate(&self) -> (r: Snapshot)
        ensures
            config_equiv(r.config, self.config),
            set_patterns(r.matcher) == set_patterns(self.matcher),
            self.wf() ==> r.wf(),
    {
        let r = Snapshot {
            config: self.config.duplicate(),
            matcher: crate::matcher::clone_pattern_set(&self.matcher),
        };
        proof {
            assert(r.config.torrent_patterns.deep_view() =~= self.config.torrent_patterns.deep_view());
        }
        r
    }
}

/// How one reload attempt ended.
#[derive(Debug, PartialEq, Eq)]
pub enum ReloadOutcome {
    /// The new configuration compiled and was installed as one whole pair.
    Updated,
    /// The config source could not be read or parsed; nothing was touched.
    ReadFailed,
    /// A pattern failed to compile; nothing was touched.
    CompileFailed(PatternError),
}

/// One reload attempt as a pure transition: the snapshot to hold after the
/// attempt, given the current one and what the reader produced. A failed
/// attempt — nothing loaded, or a pattern set that does not compile — leaves
/// the current snapshot exactly as it was.
pub fn next_snapshot(current: Snapshot, loaded: Option<BotConfig>) -> (r: (
    Snapshot,
    ReloadOutcome,
))
    requires
        current.wf(),
    ensures
        r.0.wf(),
        (r.1 is Updated) <==> (loaded is Some && patterns_compile(
            (loaded->0).torrent_patterns.deep_view(),
        )),
        (r.1 is ReadFailed) <==> (loaded is None),
        !(r.1 is Updated) ==> r.0 == current,
        (r.1 is Updated) ==> r.0.config == loaded->0,
{
    match loaded {
        None => (current, ReloadOutcome::ReadFailed),
        Some(config) => match Snapshot::build(config) {
            Ok(snapshot) => (snapshot, ReloadOutcome::Updated),
            Err(e) => (current, ReloadOutcome::CompileFailed(e)),
        },
    }
}

} // verus!
