use vstd::prelude::*;
use crate::parse::{parse_u64, parse_u64_spec};

verus! {

/// Minimum age of the committed marker, in seconds, before a refresh is
/// due: seven days.
pub const REFRESH_INTERVAL_SECS: u64 = 604800;

/// The committed marker file as the freshness oracle sees it. An
/// existing file whose content could not be read is distinct from a
/// missing one: frozen mode goes by the file's existence alone.
#[derive(Debug, Clone)]
pub enum MarkerFile {
    /// No marker file exists.
    Missing,
    /// A marker file exists, but its content could not be read.
    Unreadable,
    /// The marker file's bytes.
    Content(Vec<u8>),
}

/// The freshness decision. `now` is the current Unix time in seconds;
/// `frozen` suppresses refreshing whenever a marker file exists at all,
/// readable or not.
///
/// Outside frozen mode the decision fails open: an absent, unreadable,
/// corrupt, or future-dated marker counts as stale.
pub open spec fn needs_update_spec(marker: MarkerFile, now: u64, frozen: bool) -> bool {
    match marker {
        MarkerFile::Missing => true,
        MarkerFile::Unreadable => !frozen,
        MarkerFile::Content(bytes) => if frozen {
            false
        } else {
            match parse_u64_spec(bytes@) {
                None => true,
                Some(t) => if t > now {
                    true
                } else {
                    now - t >= REFRESH_INTERVAL_SECS
                },
            }
        },
    }
}

/// A well-formed past marker is stale exactly when it is at least seven
/// days old (outside frozen mode): an older marker demands an update, a
/// younger one does not.
pub proof fn lemma_marker_age_decides(bytes: Vec<u8>, t: u64, now: u64)
    requires
        parse_u64_spec(bytes@) == Some(t),
        t <= now,
    ensures
        needs_update_spec(MarkerFile::Content(bytes), now, false) == (now - t
            >= REFRESH_INTERVAL_SECS),
{
}

/// A marker that is missing, or that exists but cannot be read or parsed
/// as a past timestamp, is always stale (outside frozen mode, which an
/// existing marker obeys first).
pub proof fn lemma_bad_marker_is_stale(marker: MarkerFile, now: u64, frozen: bool)
    requires
        (match marker {
            MarkerFile::Missing => true,
            MarkerFile::Unreadable => !frozen,
            MarkerFile::Content(bytes) => !frozen && (match parse_u64_spec(bytes@) {
                None => true,
                Some(t) => t > now,
            }),
        }),
    ensures
        needs_update_spec(marker, now, frozen),
{
}

/// Decides whether an update is due, from the marker file's state and the
/// clock reading that the caller supplies.
pub fn needs_update(marker: &MarkerFile, now: u64, frozen: bool) -> (r: bool)
    ensures
        r == needs_update_spec(*marker, now, frozen),
{
    match marker {
        MarkerFile::Missing => true,
        MarkerFile::Unreadable => !frozen,
        MarkerFile::Content(bytes) => {
            if frozen {
                return false;
            }
            match parse_u64(bytes) {
                None => true,
                Some(t) => {
                    if t > now {
                        true
                    } else {
                        now - t >= REFRESH_INTERVAL_SECS
                    }
                },
            }
        },
    }
}

} // verus!
