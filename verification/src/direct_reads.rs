//! Routing of generation-time reads between the file provider (direct
//! reads), the staging database and the persistent database, and the errors
//! that the direct route gives instead of ever falling back.

use vstd::prelude::*;
use crate::decimal::{decimal, push_decimal};

verus! {

/// Where a routed read goes.
#[derive(Debug, Clone, Copy, PartialEq, Eq, Structural)]
pub enum ReadRoute {
    /// The direct-read provider (E3D files).
    Direct,
    /// The staging database of the current window, bypassing process caches.
    Staging,
    /// The persistent database, through the process caches.
    Persistent,
}

/// The route of a read: the direct context wins whenever it is present, the
/// staging context comes next, the persistent database is the default.
pub fn route_read(direct_active: bool, staging_active: bool) -> (r: ReadRoute)
    ensures
        direct_active ==> r == ReadRoute::Direct,
        !direct_active && staging_active ==> r == ReadRoute::Staging,
        !direct_active && !staging_active ==> r == ReadRoute::Persistent,
{
    if direct_active {
        ReadRoute::Direct
    } else if staging_active {
        ReadRoute::Staging
    } else {
        ReadRoute::Persistent
    }
}

/// Text of the error for a query that the direct provider does not answer.
pub open spec fn unsupported_text(query: Seq<char>, refno: Seq<char>) -> Seq<char> {
    "direct read is not implemented for "@ + query + "("@ + refno
        + "); the direct provider must answer it or the generation must not run in a direct context — falling back to SurrealDB here would make the db/direct comparison agree by reading the same database twice"@
}

/// Text of the error for a batch query that the direct provider does not answer.
pub open spec fn unsupported_batch_text(query: Seq<char>, count: nat, first: Seq<char>) -> Seq<char> {
    "direct read is not implemented for "@ + query + " over "@ + decimal(count) + " refnos (first: "@
        + first
        + "); the direct provider must answer it or the generation must not run in a direct context"@
}

/// Text of the refusal to enter direct reads inside a staging read context.
pub open spec fn nested_context_text(direct: Seq<char>, staging: Seq<char>) -> Seq<char> {
    "cannot enter direct reads ("@ + direct + ") inside the staging read context ("@ + staging
        + "): one answers from the E3D files and the other from the staging database, and which one wins would be decided by the order two `if let`s happen to be written in"@
}

/// The error for a query that the direct provider does not implement; it is
/// an error rather than an empty answer or a fallback. `refno` is the
/// element's reference number as displayed.
pub fn unsupported(query: &str, refno: &str) -> (r: String)
    ensures
        r@ == unsupported_text(query@, refno@),
{
    let mut s = String::from_str("direct read is not implemented for ");
    s.append(query);
    s.append("(");
    s.append(refno);
    s.append(
        "); the direct provider must answer it or the generation must not run in a direct context — falling back to SurrealDB here would make the db/direct comparison agree by reading the same database twice",
    );
    s
}

/// The batch form of [`unsupported`]: names the query, the number of refnos
/// and the first of them (`none` for an empty batch). `refnos` holds the
/// reference numbers as displayed.
pub fn unsupported_batch(query: &str, refnos: &[String]) -> (r: String)
    ensures
        r@ == unsupported_batch_text(
            query@,
            refnos@.len(),
            if refnos@.len() == 0 { "none"@ } else { refnos@[0]@ },
        ),
{
    let mut s = String::from_str("direct read is not implemented for ");
    s.append(query);
    s.append(" over ");
    push_decimal(&mut s, refnos.len() as u64);
    s.append(" refnos (first: ");
    if refnos.len() == 0 {
        s.append("none");
    } else {
        s.append(refnos[0].as_str());
    }
    s.append(
        "); the direct provider must answer it or the generation must not run in a direct context",
    );
    s
}

/// Whether direct reads may be entered: `None` when no staging read context
/// is present, otherwise the error that refuses to nest the two contexts.
pub fn direct_reads_refusal(direct_label: &str, staging_label: Option<&str>) -> (r: Option<String>)
    ensures
        staging_label is None ==> r is None,
        staging_label matches Some(staging) ==> r matches Some(text) && text@ == nested_context_text(
            direct_label@,
            staging@,
        ),
{
    match staging_label {
        None => None,
        Some(staging) => {
            let mut s = String::from_str("cannot enter direct reads (");
            s.append(direct_label);
            s.append(") inside the staging read context (");
            s.append(staging);
            s.append(
                "): one answers from the E3D files and the other from the staging database, and which one wins would be decided by the order two `if let`s happen to be written in",
            );
            Some(s)
        },
    }
}

} // verus!
