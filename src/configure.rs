//! The user's configuration: where the artifact repository and the cache are.

use vstd::prelude::*;
use vstd::string::*;

verus! {

/// Artifact repository used when the configuration names none.
pub const DEFAULT_ARTIFACTORY: &'static str = "http://engci-maven.cisco.com/artifactory/CME-group";

/// Build container used when the configuration names none.
pub const DEFAULT_CONTAINER: &'static str = "edonusdevelopers/centos_build:latest";

/// Seconds in a day.
pub const DAY: i64 = 86400;

/// Representation of the configuration file.
#[allow(non_snake_case)]
#[derive(Debug, Clone)]
pub struct Config {
    /// Location of the artifact repository root
    pub artifactory: String,
    /// Cache directory for global and stashed builds
    pub cache: String,
    /// Docker container (potentially with tag) to use
    pub container: String,
    /// Time of the last upgrade check, in RFC 3339
    pub upgradeCheck: String,
}

/// The instant, in seconds since the Unix epoch, that an RFC 3339 text denotes.
pub uninterp spec fn rfc3339_seconds(s: Seq<char>) -> Option<i64>;

/// The RFC 3339 text, in UTC, of an instant in seconds since the Unix epoch.
pub uninterp spec fn rfc3339_text(secs: i64) -> Option<Seq<char>>;

/// Relies on chrono's `DateTime::parse_from_rfc3339` and `timestamp`: the instant
/// depends on the text alone.
#[verifier::external_body]
fn parse_rfc3339(s: &str) -> (r: Option<i64>)
    ensures
        r == rfc3339_seconds(s@),
{
    chrono::DateTime::parse_from_rfc3339(s).ok().map(|d| d.timestamp())
}

/// Relies on chrono's `DateTime::from_timestamp` and `to_rfc3339`: the text depends
/// on the instant alone, and is missing for an instant out of chrono's range.
#[verifier::external_body]
fn format_rfc3339(secs: i64) -> (r: Option<String>)
    ensures
        r matches Some(s) ==> rfc3339_text(secs) == Some(s@),
        r is None ==> rfc3339_text(secs) is None,
{
    chrono::DateTime::from_timestamp(secs, 0).map(|d| d.to_rfc3339())
}

/// Relies on chrono's `Utc::now` and `timestamp`: the present instant, of which
/// nothing is known.
#[verifier::external_body]
fn now_seconds() -> i64 {
    chrono::Utc::now().timestamp()
}

/// An upgrade check is due when the last one was more than a day before `now`, or
/// when the time of the last one cannot be read.
pub open spec fn upgrade_due_spec(last: Option<i64>, now: i64) -> bool {
    match last {
        Some(t) => t < now - DAY,
        None => true,
    }
}

/// Whether an upgrade check is due at `now`, given the time of the last one.
pub fn upgrade_due(last: Option<i64>, now: i64) -> (r: bool)
    ensures
        r == upgrade_due_spec(last, now),
{
    match last {
        Some(t) => (t as i128) < (now as i128) - (DAY as i128),
        None => true,
    }
}

impl Config {
    /// The default configuration for a user whose home directory is `home`: the
    /// cache under `.lal/cache` there, and a last upgrade check two days ago, so
    /// that the first run checks.
    pub fn new(home: &str) -> (r: Config)
        ensures
            r.cache@ == home@ + "/.lal/cache"@,
            r.artifactory@ == DEFAULT_ARTIFACTORY@,
            r.container@ == DEFAULT_CONTAINER@,
    {
        let now = now_seconds();
        let then = if now >= i64::MIN + 2 * DAY { now - 2 * DAY } else { now };
        let stamp = match format_rfc3339(then) {
            Some(s) => s,
            None => String::new(),
        };
        Config {
            artifactory: String::from_str(DEFAULT_ARTIFACTORY),
            cache: String::from_str(home).concat("/.lal/cache"),
            container: String::from_str(DEFAULT_CONTAINER),
            upgradeCheck: stamp,
        }
    }

    /// Whether it is time to check for an upgrade: more than a day since the last
    /// check, or a last check whose time cannot be read.
    pub fn upgrade_check_time(&self) -> (r: bool)
        ensures
            rfc3339_seconds(self.upgradeCheck@) is None ==> r,
    {
        let last = parse_rfc3339(self.upgradeCheck.as_str());
        upgrade_due(last, now_seconds())
    }

    /// Records that an upgrade check happened now. The other fields stay.
    pub fn performed_upgrade(&mut self)
        ensures
            final(self).artifactory == old(self).artifactory,
            final(self).cache == old(self).cache,
            final(self).container == old(self).container,
            final(self).upgradeCheck == old(self).upgradeCheck || exists|t: i64| rfc3339_text(t) == Some(final(self).upgradeCheck@),
    {
        match format_rfc3339(now_seconds()) {
            Some(s) => {
                self.upgradeCheck = s;
            },
            None => {},
        }
    }
}

} // verus!
