//! The guarantees the engine gives, stated once over the routing rule and
//! the mapping model, independent of any one request.

use vstd::prelude::*;
use crate::html::{escaped, has_substring, is_escape_char};
use crate::router::{decide, is_single_segment, segment_of, Decision, RouteOutcome};

verus! {

/// Every registered single-segment path redirects to its stored target.
pub proof fn lemma_registered_path_redirects(m: Map<Seq<char>, Seq<char>>, p: Seq<char>)
    requires
        is_single_segment(p),
        m.contains_key(p),
    ensures
        decide(m, p) == Decision::Redirect(m[p]),
{
}

/// An unregistered single-segment path is never redirected: it gets the
/// diagnostic page, whose body embeds the escaped segment.
pub proof fn lemma_unregistered_path_diagnostic(m: Map<Seq<char>, Seq<char>>, p: Seq<char>)
    requires
        is_single_segment(p),
        !m.contains_key(p),
    ensures
        !(decide(m, p) is Redirect),
        decide(m, p) matches Decision::Diagnostic(b) && has_substring(
            b,
            escaped(segment_of(p)),
        ),
{
    crate::html::lemma_diagnostic_embeds_escaped(segment_of(p));
}

/// For an unregistered single-segment path whose segment is free of the
/// characters that escaping rewrites, the diagnostic body embeds that exact
/// segment.
pub proof fn lemma_unregistered_plain_path_diagnostic(
    m: Map<Seq<char>, Seq<char>>,
    p: Seq<char>,
)
    requires
        is_single_segment(p),
        !m.contains_key(p),
        forall|i: int| 0 <= i < segment_of(p).len() ==> !is_escape_char(
            #[trigger] segment_of(p)[i],
        ),
    ensures
        decide(m, p) matches Decision::Diagnostic(b) && has_substring(b, segment_of(p)),
{
    crate::html::lemma_diagnostic_embeds_segment(segment_of(p));
}

/// Resolution is idempotent: two resolutions of the same path against the
/// same mapping, with no mutation in between, realize the same decision.
pub proof fn lemma_resolution_idempotent(
    m: Map<Seq<char>, Seq<char>>,
    p: Seq<char>,
    r1: RouteOutcome,
    r2: RouteOutcome,
)
    requires
        r1.decision() == decide(m, p),
        r2.decision() == decide(m, p),
    ensures
        r1.decision() == r2.decision(),
{
}

/// Create then resolve: once (p, u) is bound — by a successful create, or
/// by an update of an existing path — requesting p redirects to u.
pub proof fn lemma_bound_path_redirects(
    m: Map<Seq<char>, Seq<char>>,
    p: Seq<char>,
    u: Seq<char>,
)
    requires
        is_single_segment(p),
    ensures
        m.insert(p, u).contains_key(p),
        m.insert(p, u)[p] == u,
        decide(m.insert(p, u), p) == Decision::Redirect(u),
{
}

} // verus!
