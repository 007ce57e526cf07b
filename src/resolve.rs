//! The decisions of one resolution: serve the presented link, serve the cached
//! one, or ask upstream for a fresh signature, and what to store on the way.
//!
//! A resolution runs in at most two steps. `decide` takes the presented link
//! and what the cache holds under its key; where it answers `Refresh`, the
//! caller fetches a newly signed link and hands it to `accept_refreshed`, which
//! never answers `Refresh`. Where a decision carries a record, the caller
//! stores it under the target's key before it redirects.
use vstd::prelude::*;

use crate::discord::{url_of_text, DiscordUrl, ParseError, UrlView};
use crate::instant::{effectively_expired, is_effectively_expired};
use crate::store::{record_error, ConversionError, Stored};

verus! {

/// What the cache returned under a link's key, once decoded.
#[derive(Debug, Clone)]
pub enum CachedEntry {
    Missing,
    Corrupt,
    Found(Stored),
}

/// Why a resolution failed.
#[derive(Debug, Clone, Copy, PartialEq, Eq, Structural)]
pub enum ResolveError {
    CorruptRecord,
    InvalidRecord(ConversionError),
    RefreshFailed,
    RefreshUnparsable(ParseError),
    RefreshExpired,
}

/// Which way a redirect was reached.
#[derive(Debug, Clone, Copy, PartialEq, Eq, Structural)]
pub enum RedirectInfo {
    AlreadyStored,
    NewNotExpired,
    StoredNotExpired,
    Expired,
}

impl RedirectInfo {
    pub fn as_str(&self) -> &'static str {
        match self {
            RedirectInfo::AlreadyStored => "already_stored",
            RedirectInfo::NewNotExpired => "new_not_expired",
            RedirectInfo::StoredNotExpired => "stored_not_expired",
            RedirectInfo::Expired => "expired",
        }
    }
}

#[derive(Debug, Clone)]
pub enum Decision {
    /// Redirect to `target`; where `store` holds a record, write it under the
    /// target's key first.
    Serve { target: DiscordUrl, store: Option<Stored>, info: RedirectInfo },
    /// Ask upstream for a newly signed form of the presented link.
    Refresh,
    Fail(ResolveError),
}

/// A link is usable at `now` when it has a window that is not effectively
/// expired.
pub open spec fn usable(v: UrlView, now: int) -> bool {
    match v.window {
        Some(w) => !effectively_expired(w.expiry as int, now),
        None => false,
    }
}

/// Redirect to a link with view `v` without writing anything.
pub open spec fn serves_without_write(d: Decision, v: UrlView, info: RedirectInfo) -> bool {
    match d {
        Decision::Serve { target, store, info: i } => target@ == v && store is None && i == info,
        _ => false,
    }
}

/// Redirect to a link with view `v` after storing exactly that link.
pub open spec fn serves_after_write(d: Decision, v: UrlView, info: RedirectInfo) -> bool {
    match d {
        Decision::Serve { target, store, info: i } => target@ == v && store is Some
            && store->0@ == v && i == info,
        _ => false,
    }
}

/// A served link with a window is usable at `now`, and a stored record is the
/// served link: no step serves or stores an effectively expired link.
pub open spec fn keeps_expiry_invariant(d: Decision, now: int) -> bool {
    match d {
        Decision::Serve { target, store, info: _ } => (target@.window is Some ==> usable(
            target@,
            now,
        )) && (store is Some ==> store->0@ == target@),
        _ => true,
    }
}

fn usable_now(u: &DiscordUrl, now: i64) -> (r: bool)
    ensures
        r == usable(u@, now as int),
{
    match &u.expiry_params {
        Some(p) => !is_effectively_expired(p.expiry, now),
        None => false,
    }
}

/// The first step of a resolution of `incoming` at `now`, given what the
/// cache holds under its key.
///
/// A usable link is served as it is; it is stored unless the cache already
/// holds exactly it. Otherwise a usable cached link is served, and with none
/// the answer is to refresh. A record that cannot be read fails the request.
pub fn decide(incoming: &DiscordUrl, cached: CachedEntry, now: i64) -> (d: Decision)
    ensures
        cached is Corrupt ==> d == Decision::Fail(ResolveError::CorruptRecord),
        cached is Found && record_error(cached->Found_0@) is Some ==> d == Decision::Fail(
            ResolveError::InvalidRecord(record_error(cached->Found_0@)->0),
        ),
        usable(incoming@, now as int) && cached is Found && record_error(cached->Found_0@) is None
            && cached->Found_0@ == incoming@ ==> serves_without_write(
            d,
            incoming@,
            RedirectInfo::AlreadyStored,
        ),
        usable(incoming@, now as int) && (cached is Missing || (cached is Found && record_error(
            cached->Found_0@,
        ) is None && cached->Found_0@ != incoming@)) ==> serves_after_write(
            d,
            incoming@,
            RedirectInfo::NewNotExpired,
        ),
        !usable(incoming@, now as int) && cached is Found && record_error(cached->Found_0@) is None
            && usable(cached->Found_0@, now as int) ==> serves_without_write(
            d,
            cached->Found_0@,
            RedirectInfo::StoredNotExpired,
        ),
        !usable(incoming@, now as int) && (cached is Missing || (cached is Found && record_error(
            cached->Found_0@,
        ) is None && !usable(cached->Found_0@, now as int))) ==> d is Refresh,
        keeps_expiry_invariant(d, now as int),
{
    let existing = match cached {
        CachedEntry::Corrupt => return Decision::Fail(ResolveError::CorruptRecord),
        CachedEntry::Missing => None,
        CachedEntry::Found(stored) => match DiscordUrl::try_from(stored) {
            Ok(u) => Some(u),
            Err(e) => return Decision::Fail(ResolveError::InvalidRecord(e)),
        },
    };
    if usable_now(incoming, now) {
        let same = match &existing {
            Some(u) => u.same_as(incoming),
            None => false,
        };
        if same {
            return Decision::Serve {
                target: incoming.duplicate(),
                store: None,
                info: RedirectInfo::AlreadyStored,
            };
        }
        let target = incoming.duplicate();
        let record = Stored::from(incoming.duplicate());
        return Decision::Serve { target, store: Some(record), info: RedirectInfo::NewNotExpired };
    }
    match existing {
        Some(u) => if usable_now(&u, now) {
            Decision::Serve { target: u, store: None, info: RedirectInfo::StoredNotExpired }
        } else {
            Decision::Refresh
        },
        None => Decision::Refresh,
    }
}

/// The second step of a resolution at `now`, given the links that upstream
/// returned: the first is read as a bare link, stored and served. No link, one
/// that cannot be read, or one whose window is effectively expired fails the
/// request.
pub fn accept_refreshed(refreshed: &Vec<String>, now: i64) -> (d: Decision)
    ensures
        !(d is Refresh),
        keeps_expiry_invariant(d, now as int),
        refreshed@.len() == 0 ==> d == Decision::Fail(ResolveError::RefreshFailed),
        refreshed@.len() > 0 ==> match url_of_text(refreshed@[0]@) {
            Err(e) => d == Decision::Fail(ResolveError::RefreshUnparsable(e)),
            Ok(v) => if v.window is Some && effectively_expired(
                v.window->0.expiry as int,
                now as int,
            ) {
                d == Decision::Fail(ResolveError::RefreshExpired)
            } else {
                serves_after_write(d, v, RedirectInfo::Expired)
            },
        },
{
    if refreshed.len() == 0 {
        return Decision::Fail(ResolveError::RefreshFailed);
    }
    let parsed = DiscordUrl::try_from_url(refreshed[0].as_str());
    match parsed {
        Err(e) => Decision::Fail(ResolveError::RefreshUnparsable(e)),
        Ok(u) => {
            let expired = match &u.expiry_params {
                Some(p) => is_effectively_expired(p.expiry, now),
                None => false,
            };
            if expired {
                Decision::Fail(ResolveError::RefreshExpired)
            } else {
                let record = Stored::from(u.duplicate());
                Decision::Serve { target: u, store: Some(record), info: RedirectInfo::Expired }
            }
        },
    }
}

} // verus!
