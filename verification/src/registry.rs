//! The label-based instance registry: it owns no storage, and both listing
//! and deleting work purely from the labels of live cluster objects.
use vstd::prelude::*;

verus! {

use vstd::string::StringExecFns;
use crate::discovery::{ClientScope, DiscoveryIndex, default_namespace, has_verb, select_scope};
use crate::models::{DatabaseInstanceModel, DatabaseInstanceView, root_username};
use crate::text::str_eq;

/// The label selector matching every object this service manages.
pub open spec fn managed_selector() -> Seq<char> {
    "app.kubernetes.io/managed-by=Moonscale"@
}

/// The selector text matching every object this service manages.
pub fn managed_selector_text() -> (r: String)
    ensures
        r@ == managed_selector(),
{
    "app.kubernetes.io/managed-by=Moonscale".to_owned()
}

/// The label holding an object's instance name.
pub open spec fn instance_label_key() -> Seq<char> {
    "app.kubernetes.io/instance"@
}

/// The label-key text holding an object's instance name.
pub fn instance_label_key_text() -> (r: String)
    ensures
        r@ == instance_label_key(),
{
    "app.kubernetes.io/instance".to_owned()
}

/// The compound selector matching every object of one instance.
pub open spec fn instance_selector(instance: Seq<char>) -> Seq<char> {
    "app.kubernetes.io/managed-by=Moonscale,app.kubernetes.io/instance="@ + instance
}

/// The compound selector text matching every object of one instance.
pub fn instance_selector_text(instance: &str) -> (r: String)
    ensures
        r@ == instance_selector(instance@),
{
    let mut s: String = "app.kubernetes.io/managed-by=Moonscale,app.kubernetes.io/instance=".to_owned();
    s.append(instance);
    s
}

/// Whether a discovered resource takes part in a deletion scan: it must
/// support both listing and deleting.
pub open spec fn scan_eligible(d: crate::discovery::ApiResourceDescriptor) -> bool {
    has_verb(d, "list"@) && has_verb(d, "delete"@)
}

/// One step of a deletion scan: which resource to query, under which
/// client scope, with which selector.
pub struct ScanTarget {
    pub resource: usize,
    pub scope: ClientScope,
    pub selector: String,
}

/// Plan a deletion scan over one discovery snapshot: every resource kind
/// that supports list and delete, in discovery order, each queried by the
/// instance's compound selector, cluster-wide for cluster-scoped kinds and
/// in the default namespace otherwise.
#[verifier::rlimit(60)]
pub fn delete_targets(index: &DiscoveryIndex, instance: &str) -> (r: Vec<ScanTarget>)
    ensures
        forall|a: int, b: int|
            0 <= a < b < r@.len() ==> (#[trigger] r@[a]).resource < (#[trigger] r@[b]).resource,
        forall|t: int|
            0 <= t < r@.len() ==> {
                let tgt = #[trigger] r@[t];
                &&& tgt.resource < index.resources@.len()
                &&& scan_eligible(index.resources@[tgt.resource as int])
                &&& (index.resources@[tgt.resource as int].scope is Cluster ==> tgt.scope
                    is AllNamespaces)
                &&& (index.resources@[tgt.resource as int].scope is Namespaced ==> (
                tgt.scope matches ClientScope::Namespaced(ns) && ns@ == default_namespace()))
                &&& tgt.selector@ == instance_selector(instance@)
            },
        forall|i: int|
            0 <= i < index.resources@.len() && scan_eligible(#[trigger] index.resources@[i])
                ==> exists|t: int| 0 <= t < r@.len() && (#[trigger] r@[t]).resource == i,
{
    let mut targets: Vec<ScanTarget> = Vec::new();
    let mut i: usize = 0;
    while i < index.resources.len()
        invariant
            i <= index.resources@.len(),
            forall|a: int, b: int|
                0 <= a < b < targets@.len() ==> (#[trigger] targets@[a]).resource
                    < (#[trigger] targets@[b]).resource,
            forall|t: int|
                0 <= t < targets@.len() ==> {
                    let tgt = #[trigger] targets@[t];
                    &&& tgt.resource < i
                    &&& scan_eligible(index.resources@[tgt.resource as int])
                    &&& (index.resources@[tgt.resource as int].scope is Cluster ==> tgt.scope
                        is AllNamespaces)
                    &&& (index.resources@[tgt.resource as int].scope is Namespaced ==> (
                    tgt.scope matches ClientScope::Namespaced(ns) && ns@ == default_namespace()))
                    &&& tgt.selector@ == instance_selector(instance@)
                },
            forall|k: int|
                0 <= k < i && scan_eligible(#[trigger] index.resources@[k]) ==> exists|t: int|
                    0 <= t < targets@.len() && (#[trigger] targets@[t]).resource == k,
        decreases index.resources@.len() - i,
    {
        let d = &index.resources[i];
        if d.supports_verb("list") && d.supports_verb("delete") {
            let scope = select_scope(d.scope, None, false);
            let selector = instance_selector_text(instance);
            let ghost pre = targets@;
            targets.push(ScanTarget { resource: i, scope, selector });
            proof {
                assert forall|k: int|
                    0 <= k <= i && scan_eligible(#[trigger] index.resources@[k]) implies exists|
                    t: int,
                |
                    0 <= t < targets@.len() && (#[trigger] targets@[t]).resource == k by {
                    if k == i {
                        assert(targets@[pre.len() as int].resource == k);
                    } else {
                        let t0 = choose|t: int|
                            0 <= t < pre.len() && (#[trigger] pre[t]).resource == k;
                        assert(targets@[t0].resource == k);
                    }
                }
            }
        }
        i = i + 1;
    }
    targets
}

/// What one kind's scan reported back.
#[derive(PartialEq, Eq, Structural, Clone, Copy, Debug)]
pub enum KindScanEvent {
    /// The list call for this kind failed: logged and skipped, the scan of
    /// the other kinds goes on.
    ListFailed,
    /// The list call succeeded: how many objects matched the selector, and
    /// how many of them were successfully deleted.
    Listed { matched: usize, deleted: usize },
}

/// The accumulated outcome of one deletion scan.
pub struct DeleteTally {
    pub kinds_scanned: usize,
    pub lists_failed: usize,
    pub objects_matched: usize,
    pub objects_deleted: usize,
}

/// Addition that stops at the platform bound.
pub open spec fn sat_add(a: int, b: int) -> int {
    if a + b > usize::MAX as int {
        usize::MAX as int
    } else {
        a + b
    }
}

fn sat_add_usize(a: usize, b: usize) -> (r: usize)
    ensures
        r as int == sat_add(a as int, b as int),
{
    if b > usize::MAX - a {
        usize::MAX
    } else {
        a + b
    }
}

/// How many objects a scan's events matched, stopping at the platform
/// bound.
pub open spec fn sum_matched(s: Seq<KindScanEvent>) -> int
    decreases s.len(),
{
    if s.len() == 0 {
        0
    } else {
        sat_add(
            sum_matched(s.drop_last()),
            match s.last() {
                KindScanEvent::Listed { matched, .. } => matched as int,
                KindScanEvent::ListFailed => 0,
            },
        )
    }
}

/// How many objects a scan's events deleted, stopping at the platform
/// bound.
pub open spec fn sum_deleted(s: Seq<KindScanEvent>) -> int
    decreases s.len(),
{
    if s.len() == 0 {
        0
    } else {
        sat_add(
            sum_deleted(s.drop_last()),
            match s.last() {
                KindScanEvent::Listed { deleted, .. } => deleted as int,
                KindScanEvent::ListFailed => 0,
            },
        )
    }
}

/// How many list calls of a scan failed.
pub open spec fn count_list_failures(s: Seq<KindScanEvent>) -> int
    decreases s.len(),
{
    if s.len() == 0 {
        0
    } else {
        count_list_failures(s.drop_last()) + if s.last() is ListFailed {
            1int
        } else {
            0int
        }
    }
}

/// Whether any event of a scan deleted at least one object.
pub open spec fn any_deleted(s: Seq<KindScanEvent>) -> bool {
    exists|i: int|
        0 <= i < s.len() && ((#[trigger] s[i]) matches KindScanEvent::Listed { deleted, .. }
            && deleted > 0)
}

/// Account for a whole deletion scan.
pub fn tally_delete(events: &Vec<KindScanEvent>) -> (r: DeleteTally)
    ensures
        r.kinds_scanned == events@.len(),
        r.lists_failed == count_list_failures(events@),
        r.objects_matched == sum_matched(events@),
        r.objects_deleted == sum_deleted(events@),
{
    let mut lists_failed: usize = 0;
    let mut matched: usize = 0;
    let mut deleted: usize = 0;
    let mut i: usize = 0;
    while i < events.len()
        invariant
            i <= events@.len(),
            lists_failed == count_list_failures(events@.take(i as int)),
            matched as int == sum_matched(events@.take(i as int)),
            deleted as int == sum_deleted(events@.take(i as int)),
            lists_failed <= i,
        decreases events@.len() - i,
    {
        proof {
            assert(events@.take(i + 1).drop_last() =~= events@.take(i as int));
            assert(events@.take(i + 1).last() == events@[i as int]);
        }
        match events[i] {
            KindScanEvent::ListFailed => {
                lists_failed = lists_failed + 1;
            },
            KindScanEvent::Listed { matched: m, deleted: d } => {
                matched = sat_add_usize(matched, m);
                deleted = sat_add_usize(deleted, d);
            },
        }
        i = i + 1;
    }
    proof {
        assert(events@.take(events@.len() as int) =~= events@);
    }
    DeleteTally {
        kinds_scanned: events.len(),
        lists_failed,
        objects_matched: matched,
        objects_deleted: deleted,
    }
}

/// The distinguished failure of a deletion: the full scan completed and
/// nothing was deleted.
#[derive(PartialEq, Eq, Structural, Debug)]
pub enum DeleteError {
    NotFound,
}

/// Judge a completed deletion scan: success exactly when at least one
/// object across all kinds was deleted; otherwise the distinguished
/// not-found outcome, never a generic error.
pub fn delete_verdict(events: &Vec<KindScanEvent>) -> (r: Result<DeleteTally, DeleteError>)
    ensures
        any_deleted(events@) <==> r is Ok,
        r matches Ok(t) ==> {
            &&& t.kinds_scanned == events@.len()
            &&& t.lists_failed == count_list_failures(events@)
            &&& t.objects_matched == sum_matched(events@)
            &&& t.objects_deleted == sum_deleted(events@)
        },
        !any_deleted(events@) ==> (r matches Err(e) && e is NotFound),
{
    let mut found = false;
    let mut i: usize = 0;
    while i < events.len()
        invariant
            i <= events@.len(),
            found == exists|k: int|
                0 <= k < i && ((#[trigger] events@[k]) matches KindScanEvent::Listed {
                    deleted,
                    ..
                } && deleted > 0),
        decreases events@.len() - i,
    {
        match events[i] {
            KindScanEvent::Listed { deleted, .. } => {
                if deleted > 0 {
                    found = true;
                }
            },
            KindScanEvent::ListFailed => {},
        }
        i = i + 1;
    }
    if found {
        Ok(tally_delete(events))
    } else {
        Err(DeleteError::NotFound)
    }
}

/// Deleting an instance that no labeled object matches, across every kind
/// the scan reached, is never a success: with nothing matched, nothing was
/// deleted, whatever else happened — even if some kinds' list calls
/// failed.
pub proof fn lemma_delete_nothing_matched(events: Seq<KindScanEvent>)
    requires
        forall|i: int|
            0 <= i < events.len() ==> ((#[trigger] events[i]) matches KindScanEvent::Listed {
                matched,
                deleted,
            } ==> matched == 0 && deleted <= matched),
    ensures
        !any_deleted(events),
{
}

/// Deleting an instance with at least one object successfully deleted in
/// any kind is a success, even when every other kind's list call errored
/// out.
pub proof fn lemma_delete_success_despite_failures(events: Seq<KindScanEvent>, i: int)
    requires
        0 <= i < events.len(),
        events[i] matches KindScanEvent::Listed { deleted, .. } && deleted > 0,
    ensures
        any_deleted(events),
{
}

/// One managed workload as the list operation sees it: its labels, and
/// what the credential lookup for its instance name returned.
pub struct ListEntry {
    pub labels: Vec<(String, String)>,
    pub credential: Option<String>,
}

/// The value of the first label with the given key.
pub open spec fn label_value(labels: Seq<(String, String)>, key: Seq<char>) -> Option<Seq<char>>
    decreases labels.len(),
{
    if labels.len() == 0 {
        None
    } else if labels[0].0@ == key {
        Some(labels[0].1@)
    } else {
        label_value(labels.drop_first(), key)
    }
}

/// Find the value of the first label with the given key.
pub fn find_label(labels: &Vec<(String, String)>, key: &str) -> (r: Option<String>)
    ensures
        r.deep_view() == label_value(labels@, key@),
{
    let mut i: usize = 0;
    proof {
        assert(labels@.skip(0) =~= labels@);
    }
    while i < labels.len()
        invariant
            i <= labels@.len(),
            label_value(labels@, key@) == label_value(labels@.skip(i as int), key@),
        decreases labels@.len() - i,
    {
        proof {
            assert(labels@.skip(i as int)[0] == labels@[i as int]);
            assert(labels@.skip(i as int).drop_first() =~= labels@.skip(i + 1));
        }
        if str_eq(labels[i].0.as_str(), key) {
            return Some(labels[i].1.as_str().to_owned());
        }
        i = i + 1;
    }
    proof {
        assert(labels@.skip(labels@.len() as int) =~= Seq::<(String, String)>::empty());
    }
    None
}

/// The URL the list operation reports for one instance.
pub open spec fn instance_url(name: Seq<char>, domain: Seq<char>) -> Seq<char> {
    "https://"@ + name + "."@ + domain
}

/// The record one workload contributes to a list result: nothing when the
/// workload lacks the instance label or its credential lookup failed.
pub open spec fn entry_record(e: ListEntry, domain: Seq<char>) -> Option<DatabaseInstanceView> {
    match label_value(e.labels@, instance_label_key()) {
        None => None,
        Some(name) => match e.credential {
            None => None,
            Some(p) => Some(
                DatabaseInstanceView {
                    planetscale_api_url: instance_url(name, domain),
                    database_username: root_username(),
                    database_password: p@,
                    database_name: name,
                },
            ),
        },
    }
}

/// The records a list of workloads assembles into, in list order.
pub open spec fn assemble_views(entries: Seq<ListEntry>, domain: Seq<char>) -> Seq<
    DatabaseInstanceView,
>
    decreases entries.len(),
{
    if entries.len() == 0 {
        Seq::empty()
    } else {
        let pre = assemble_views(entries.drop_last(), domain);
        match entry_record(entries.last(), domain) {
            Some(rec) => pre.push(rec),
            None => pre,
        }
    }
}

/// Assemble the list result from the managed workloads.
///
/// A workload without the instance label is skipped, an instance whose
/// credential lookup failed is skipped, and every other instance is
/// returned, in order.
pub fn assemble_instances(entries: &Vec<ListEntry>, domain: &str) -> (r: Vec<
    DatabaseInstanceModel,
>)
    ensures
        r@.map_values(|m: DatabaseInstanceModel| m@) == assemble_views(entries@, domain@),
{
    let mut out: Vec<DatabaseInstanceModel> = Vec::new();
    let mut i: usize = 0;
    while i < entries.len()
        invariant
            i <= entries@.len(),
            out@.map_values(|m: DatabaseInstanceModel| m@) =~= assemble_views(
                entries@.take(i as int),
                domain@,
            ),
        decreases entries@.len() - i,
    {
        proof {
            assert(entries@.take(i + 1).drop_last() =~= entries@.take(i as int));
            assert(entries@.take(i + 1).last() == entries@[i as int]);
        }
        let key = instance_label_key_text();
        match find_label(&entries[i].labels, key.as_str()) {
            None => {},
            Some(name) => {
                match &entries[i].credential {
                    None => {},
                    Some(p) => {
                        let mut url: String = "https://".to_owned();
                        url.append(name.as_str());
                        url.append(".");
                        url.append(domain);
                        let record = DatabaseInstanceModel {
                            planetscale_api_url: url,
                            database_username: "root".to_owned(),
                            database_password: p.as_str().to_owned(),
                            database_name: name,
                        };
                        proof {
                            assert(record@.planetscale_api_url =~= instance_url(
                                record@.database_name,
                                domain@,
                            ));
                        }
                        out.push(record);
                    },
                }
            },
        }
        i = i + 1;
        proof {
            assert(out@.map_values(|m: DatabaseInstanceModel| m@) =~= assemble_views(
                entries@.take(i as int),
                domain@,
            ));
        }
    }
    proof {
        assert(entries@.take(entries@.len() as int) =~= entries@);
    }
    out
}

/// A workload that contributes no record — one without the instance label,
/// or one whose credential lookup failed — can be dropped without changing
/// the assembled list: every other valid instance is still returned.
pub proof fn lemma_list_omits_invalid(entries: Seq<ListEntry>, domain: Seq<char>, i: int)
    requires
        0 <= i < entries.len(),
        entry_record(entries[i], domain) is None,
    ensures
        assemble_views(entries, domain) == assemble_views(entries.remove(i), domain),
    decreases entries.len(),
{
    if i == entries.len() - 1 {
        assert(entries.remove(i) =~= entries.drop_last());
    } else {
        assert(entries.remove(i).drop_last() =~= entries.drop_last().remove(i));
        assert(entries.remove(i).last() == entries.last());
        lemma_list_omits_invalid(entries.drop_last(), domain, i);
    }
}

} // verus!
