//! Planning the idempotent apply of rendered documents, and accounting for
//! the best-effort outcome of the batch.
use vstd::prelude::*;

verus! {

use crate::discovery::{
    ClientScope,
    DiscoveryIndex,
    default_namespace,
    descriptor_matches,
    group_of,
    gv_wellformed,
    index_has,
    parse_api_version,
    select_scope,
    version_of,
};
use crate::manifest::{DocEnvelope, RenderedDocument};

/// What the engine decides to do with one rendered document.
pub enum DocDirective {
    /// Apply the document through the resolved resource, under the given
    /// client scope, at the given object name.
    Apply { resource: usize, scope: ClientScope, name: String },
    /// The document declares no kind or no apiVersion: fatal for this one
    /// document.
    MissingTypeMetadata,
    /// The document's apiVersion is malformed: fatal for this one document.
    BadApiVersion,
    /// The declared kind is absent from discovery: this one document is
    /// logged and skipped.
    UnknownKind,
}

/// Whether a directive is the decision the engine owes for one document
/// against one discovery snapshot.
pub open spec fn is_plan_for(index: DiscoveryIndex, env: DocEnvelope, d: DocDirective) -> bool {
    match (env.api_version, env.kind) {
        (Some(av), Some(kind)) => {
            if !gv_wellformed(av@) {
                d is BadApiVersion
            } else if !index_has(index, group_of(av@), version_of(av@), kind@) {
                d is UnknownKind
            } else {
                match d {
                    DocDirective::Apply { resource, scope, name } => {
                        &&& resource < index.resources@.len()
                        &&& descriptor_matches(
                            index.resources@[resource as int],
                            group_of(av@),
                            version_of(av@),
                            kind@,
                        )
                        &&& forall|j: int|
                            0 <= j < resource ==> !descriptor_matches(
                                #[trigger] index.resources@[j],
                                group_of(av@),
                                version_of(av@),
                                kind@,
                            )
                        &&& (index.resources@[resource as int].scope is Cluster ==> scope
                            is AllNamespaces)
                        &&& (index.resources@[resource as int].scope is Namespaced ==> (
                        scope matches ClientScope::Namespaced(ns) && ns@ == (match env.namespace {
                            Some(n) => n@,
                            None => default_namespace(),
                        })))
                        &&& name@ == (match env.name {
                            Some(n) => n@,
                            None => Seq::<char>::empty(),
                        })
                    },
                    _ => false,
                }
            }
        },
        _ => d is MissingTypeMetadata,
    }
}

/// Decide what to do with one document: resolve its declared kind against
/// the discovery snapshot and choose the client scope, or classify why it
/// cannot be applied.
pub fn plan_document(index: &DiscoveryIndex, env: &DocEnvelope) -> (r: DocDirective)
    ensures
        is_plan_for(*index, *env, r),
{
    let av = match &env.api_version {
        None => {
            return DocDirective::MissingTypeMetadata;
        },
        Some(av) => av,
    };
    let kind = match &env.kind {
        None => {
            return DocDirective::MissingTypeMetadata;
        },
        Some(k) => k,
    };
    let gv = match parse_api_version(av.as_str()) {
        None => {
            return DocDirective::BadApiVersion;
        },
        Some(gv) => gv,
    };
    let resource = match index.resolve(gv.0.as_str(), gv.1.as_str(), kind.as_str()) {
        None => {
            return DocDirective::UnknownKind;
        },
        Some(i) => i,
    };
    let namespace_hint: Option<&str> = match &env.namespace {
        Some(n) => Some(n.as_str()),
        None => None,
    };
    let scope = select_scope(index.resources[resource].scope, namespace_hint, false);
    let name: String = match &env.name {
        Some(n) => n.as_str().to_owned(),
        None => {
            let empty: String = "".to_owned();
            proof {
                reveal_strlit("");
                assert(empty@ =~= Seq::<char>::empty());
            }
            empty
        },
    };
    DocDirective::Apply { resource, scope, name }
}

/// Decide what to do with every document of one rendered manifest, in
/// template order.
///
/// Every document gets its own directive: one document that cannot be
/// applied never blocks the documents after it.
pub fn plan_all(index: &DiscoveryIndex, docs: &Vec<RenderedDocument>) -> (r: Vec<DocDirective>)
    ensures
        r@.len() == docs@.len(),
        forall|i: int|
            0 <= i < docs@.len() ==> is_plan_for(*index, docs@[i].envelope, #[trigger] r@[i]),
{
    let mut plans: Vec<DocDirective> = Vec::new();
    let mut i: usize = 0;
    while i < docs.len()
        invariant
            i <= docs@.len(),
            plans@.len() == i,
            forall|k: int|
                0 <= k < i ==> is_plan_for(*index, docs@[k].envelope, #[trigger] plans@[k]),
        decreases docs@.len() - i,
    {
        let p = plan_document(index, &docs[i].envelope);
        plans.push(p);
        i = i + 1;
    }
    plans
}

/// A document whose kind resolves to a cluster-scoped resource is never
/// applied through a namespaced client, whatever namespace the document
/// declares.
pub proof fn lemma_cluster_scope_never_namespaced(
    index: DiscoveryIndex,
    env: DocEnvelope,
    d: DocDirective,
)
    requires
        is_plan_for(index, env, d),
        (d matches DocDirective::Apply { resource, .. } && index.resources@[resource as int].scope
            is Cluster),
    ensures
        (d matches DocDirective::Apply { scope, .. } && scope is AllNamespaces),
{
}

/// Every document of a batch is accounted for exactly once, whatever came
/// of it: a failing or skipped document never hides the documents after
/// it.
pub proof fn lemma_apply_accounts_for_all(s: Seq<ApplyEvent>)
    ensures
        count_applied(s) + count_apply_failed(s) + count_skipped(s) == s.len(),
    decreases s.len(),
{
    if s.len() > 0 {
        lemma_apply_accounts_for_all(s.drop_last());
    }
}

/// How one document of a batch fared.
#[derive(PartialEq, Eq, Structural, Clone, Copy, Debug)]
pub enum ApplyEvent {
    /// The apply call was accepted by the API server.
    Applied,
    /// The apply call was rejected; the failure is logged and the batch
    /// goes on.
    ApplyFailed,
    /// The document was never sent: it had no directive to apply.
    Skipped,
}

/// The accumulated outcome of one best-effort batch.
pub struct ApplyReport {
    pub attempted: usize,
    pub succeeded: usize,
    pub failed: usize,
    pub skipped: usize,
}

/// How many events of a batch were accepted applies.
pub open spec fn count_applied(s: Seq<ApplyEvent>) -> int
    decreases s.len(),
{
    if s.len() == 0 {
        0
    } else {
        count_applied(s.drop_last()) + if s.last() is Applied {
            1int
        } else {
            0int
        }
    }
}

/// How many events of a batch were rejected applies.
pub open spec fn count_apply_failed(s: Seq<ApplyEvent>) -> int
    decreases s.len(),
{
    if s.len() == 0 {
        0
    } else {
        count_apply_failed(s.drop_last()) + if s.last() is ApplyFailed {
            1int
        } else {
            0int
        }
    }
}

/// How many events of a batch were never sent.
pub open spec fn count_skipped(s: Seq<ApplyEvent>) -> int
    decreases s.len(),
{
    if s.len() == 0 {
        0
    } else {
        count_skipped(s.drop_last()) + if s.last() is Skipped {
            1int
        } else {
            0int
        }
    }
}

/// Account for a whole batch: every document is counted, whatever came of
/// it, so a failure in the middle never hides the documents after it.
pub fn tally_apply(events: &Vec<ApplyEvent>) -> (r: ApplyReport)
    ensures
        r.attempted == count_applied(events@) + count_apply_failed(events@),
        r.succeeded == count_applied(events@),
        r.failed == count_apply_failed(events@),
        r.skipped == count_skipped(events@),
{
    let mut succeeded: usize = 0;
    let mut failed: usize = 0;
    let mut skipped: usize = 0;
    let mut i: usize = 0;
    while i < events.len()
        invariant
            i <= events@.len(),
            succeeded == count_applied(events@.take(i as int)),
            failed == count_apply_failed(events@.take(i as int)),
            skipped == count_skipped(events@.take(i as int)),
            succeeded + failed + skipped == i,
        decreases events@.len() - i,
    {
        proof {
            assert(events@.take(i + 1).drop_last() =~= events@.take(i as int));
            assert(events@.take(i + 1).last() == events@[i as int]);
        }
        match events[i] {
            ApplyEvent::Applied => {
                succeeded = succeeded + 1;
            },
            ApplyEvent::ApplyFailed => {
                failed = failed + 1;
            },
            ApplyEvent::Skipped => {
                skipped = skipped + 1;
            },
        }
        i = i + 1;
    }
    proof {
        assert(events@.take(events@.len() as int) =~= events@);
    }
    ApplyReport { attempted: succeeded + failed, succeeded, failed, skipped }
}

} // verus!
