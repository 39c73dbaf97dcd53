//! The resolution engine. Two routes are registered for single-segment
//! paths: a redirect route gated by a lookup against the mapping source, and
//! a lower-priority diagnostic route that matches unconditionally. A miss on
//! the gated route falls through to the diagnostic route; paths that neither
//! route captures fall through to the platform's default not-found outcome.

use vstd::prelude::*;
use crate::html::{diagnostic_body, render_diagnostic};
use crate::source::MappingSource;
use crate::store::{ConflictError, UpdateOutcome};

verus! {

/// A path both routes can capture: a leading slash followed by one
/// non-empty segment that contains no further slash. The root alone and
/// deeper paths are captured by neither route.
pub open spec fn is_single_segment(p: Seq<char>) -> bool {
    p.len() >= 2 && p[0] == '/' && forall|i: int| 1 <= i < p.len() ==> p[i] != '/'
}

/// The captured segment: the path without its leading slash.
pub open spec fn segment_of(p: Seq<char>) -> Seq<char> {
    p.subrange(1, p.len() as int)
}

/// What serving a request comes to, stated over character sequences.
pub enum Decision {
    /// Redirect to the stored target.
    Redirect(Seq<char>),
    /// Serve the diagnostic page with this body.
    Diagnostic(Seq<char>),
    /// Neither route captured the path.
    NotFound,
}

/// The routing rule: on a single-segment path, a registered mapping wins and
/// redirects to its target; an unregistered one falls through to the
/// diagnostic page; any other path is captured by neither route.
pub open spec fn decide(m: Map<Seq<char>, Seq<char>>, p: Seq<char>) -> Decision {
    if is_single_segment(p) {
        if m.contains_key(p) {
            Decision::Redirect(m[p])
        } else {
            Decision::Diagnostic(diagnostic_body(segment_of(p)))
        }
    } else {
        Decision::NotFound
    }
}

/// What the engine serves for one request.
pub enum RouteOutcome {
    /// Redirect (HTTP 3xx) to the carried target.
    Redirect(String),
    /// Serve the diagnostic page (HTTP 200) with the carried body.
    Diagnostic(String),
    /// Neither route captured the path; the platform's default not-found
    /// response applies.
    NotFound,
}

impl RouteOutcome {
    /// The decision this outcome realizes.
    pub open spec fn decision(&self) -> Decision {
        match self {
            RouteOutcome::Redirect(u) => Decision::Redirect(u@),
            RouteOutcome::Diagnostic(b) => Decision::Diagnostic(b@),
            RouteOutcome::NotFound => Decision::NotFound,
        }
    }
}

/// `p` is a single-segment path, decided executably.
fn check_single_segment(path: &str) -> (b: bool)
    ensures
        b == is_single_segment(path@),
{
    let n: usize = path.unicode_len();
    if n < 2 {
        return false;
    }
    if path.get_char(0) != '/' {
        return false;
    }
    let mut i: usize = 1;
    while i < n
        invariant
            n == path@.len(),
            1 <= i <= n,
            forall|k: int| 1 <= k < i ==> path@[k] != '/',
        decreases n - i,
    {
        if path.get_char(i) == '/' {
            return false;
        }
        i = i + 1;
    }
    true
}

/// Serve one request path against a mapping source. The routes are tried in
/// priority order; the result is exactly what the routing rule decides.
pub fn route<S: MappingSource>(source: &S, path: &str) -> (r: RouteOutcome)
    requires
        source.inv(),
    ensures
        r.decision() == decide(source.mappings(), path@),
{
    if !check_single_segment(path) {
        return RouteOutcome::NotFound;
    }
    match source.resolve(path) {
        Some(url) => RouteOutcome::Redirect(url),
        None => {
            let seg = path.substring_char(1, path.unicode_len());
            RouteOutcome::Diagnostic(render_diagnostic(seg))
        },
    }
}

/// The status code a route outcome is served with: a see-other redirect, an
/// ok diagnostic page, or the default not-found.
pub fn route_status(r: &RouteOutcome) -> (code: u16)
    ensures
        code == (match r {
            RouteOutcome::Redirect(_) => 303u16,
            RouteOutcome::Diagnostic(_) => 200u16,
            RouteOutcome::NotFound => 404u16,
        }),
{
    match r {
        RouteOutcome::Redirect(_) => 303,
        RouteOutcome::Diagnostic(_) => 200,
        RouteOutcome::NotFound => 404,
    }
}

/// The status code the create endpoint answers with: created on success, a
/// client-error conflict when the path already exists.
pub fn create_status(r: &Result<(), ConflictError>) -> (code: u16)
    ensures
        code == (match r {
            Ok(_) => 201u16,
            Err(_) => 409u16,
        }),
{
    match r {
        Ok(_) => 201,
        Err(_) => 409,
    }
}

/// The status code the update endpoint answers with: no-content when a row
/// changed, not-found when the path was absent.
pub fn update_status(o: &UpdateOutcome) -> (code: u16)
    ensures
        code == (match o {
            UpdateOutcome::Updated => 204u16,
            UpdateOutcome::NotFound => 404u16,
        }),
{
    match o {
        UpdateOutcome::Updated => 204,
        UpdateOutcome::NotFound => 404,
    }
}

/// The outcome an update reports from the number of rows the storage engine
/// changed: not-found on zero, updated otherwise.
pub fn update_outcome_of_rows(rows: usize) -> (o: UpdateOutcome)
    ensures
        o == (if rows == 0 {
            UpdateOutcome::NotFound
        } else {
            UpdateOutcome::Updated
        }),
{
    if rows == 0 {
        UpdateOutcome::NotFound
    } else {
        UpdateOutcome::Updated
    }
}

} // verus!
