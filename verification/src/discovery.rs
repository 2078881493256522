//! A point-in-time snapshot of the cluster's API discovery, and the
//! resolution of a declared kind against it.
use vstd::prelude::*;

verus! {

use vstd::string::StrSliceExecFns;
use crate::text::str_eq;

/// Whether a resource kind lives inside a namespace or cluster-wide.
#[derive(PartialEq, Eq, Structural, Clone, Copy, Debug)]
pub enum ResourceScope {
    Cluster,
    Namespaced,
}

/// One API resource as discovery reports it: its group/version/kind triple,
/// its scope, and the verbs it supports.
pub struct ApiResourceDescriptor {
    pub group: String,
    pub version: String,
    pub kind: String,
    pub scope: ResourceScope,
    pub verbs: Vec<String>,
}

/// Everything the cluster serves, as one enumeration.
///
/// The snapshot is taken once per request and never cached across requests.
pub struct DiscoveryIndex {
    pub resources: Vec<ApiResourceDescriptor>,
}

/// The client scope an operation runs under.
pub enum ClientScope {
    /// A cluster-wide client, across all namespaces.
    AllNamespaces,
    /// A client bound to one namespace.
    Namespaced(String),
}

/// The namespace used when an object declares none.
pub open spec fn default_namespace() -> Seq<char> {
    "moonscale"@
}

/// Whether a descriptor is for the given group/version/kind triple.
pub open spec fn descriptor_matches(
    d: ApiResourceDescriptor,
    group: Seq<char>,
    version: Seq<char>,
    kind: Seq<char>,
) -> bool {
    d.group@ == group && d.version@ == version && d.kind@ == kind
}

/// Whether any descriptor in the index is for the given triple.
pub open spec fn index_has(
    idx: DiscoveryIndex,
    group: Seq<char>,
    version: Seq<char>,
    kind: Seq<char>,
) -> bool {
    exists|i: int|
        0 <= i < idx.resources@.len() && descriptor_matches(
            #[trigger] idx.resources@[i],
            group,
            version,
            kind,
        )
}

/// Whether a descriptor supports a verb.
pub open spec fn has_verb(d: ApiResourceDescriptor, verb: Seq<char>) -> bool {
    exists|i: int| 0 <= i < d.verbs@.len() && (#[trigger] d.verbs@[i])@ == verb
}

impl ApiResourceDescriptor {
    /// Whether this resource supports the given verb.
    pub fn supports_verb(&self, verb: &str) -> (r: bool)
        ensures
            r == has_verb(*self, verb@),
    {
        let mut i: usize = 0;
        while i < self.verbs.len()
            invariant
                i <= self.verbs@.len(),
                forall|k: int| 0 <= k < i ==> (#[trigger] self.verbs@[k])@ != verb@,
            decreases self.verbs@.len() - i,
        {
            if str_eq(self.verbs[i].as_str(), verb) {
                return true;
            }
            i = i + 1;
        }
        false
    }
}

impl DiscoveryIndex {
    /// Look up the exact group/version/kind triple in the snapshot.
    ///
    /// Returns the position of the first matching resource, or `None` when
    /// the kind is unknown to the cluster — which callers treat as "cannot
    /// act on this object", never as a fatal error.
    pub fn resolve(&self, group: &str, version: &str, kind: &str) -> (r: Option<usize>)
        ensures
            match r {
                Some(i) => {
                    &&& i < self.resources@.len()
                    &&& descriptor_matches(self.resources@[i as int], group@, version@, kind@)
                    &&& forall|j: int|
                        0 <= j < i ==> !descriptor_matches(
                            #[trigger] self.resources@[j],
                            group@,
                            version@,
                            kind@,
                        )
                },
                None => !index_has(*self, group@, version@, kind@),
            },
    {
        let mut i: usize = 0;
        while i < self.resources.len()
            invariant
                i <= self.resources@.len(),
                forall|j: int|
                    0 <= j < i ==> !descriptor_matches(
                        #[trigger] self.resources@[j],
                        group@,
                        version@,
                        kind@,
                    ),
            decreases self.resources@.len() - i,
        {
            let d = &self.resources[i];
            if str_eq(d.group.as_str(), group) && str_eq(d.version.as_str(), version) && str_eq(
                d.kind.as_str(),
                kind,
            ) {
                return Some(i);
            }
            i = i + 1;
        }
        None
    }
}

/// Whether a character sequence holds no slash.
pub open spec fn slash_free(s: Seq<char>) -> bool {
    forall|i: int| 0 <= i < s.len() ==> s[i] != '/'
}

/// Whether position `i` holds the only slash of the sequence.
pub open spec fn single_slash_at(s: Seq<char>, i: int) -> bool {
    &&& 0 <= i < s.len()
    &&& s[i] == '/'
    &&& forall|k: int| 0 <= k < s.len() && k != i ==> s[k] != '/'
}

/// Whether a declared `apiVersion` is well-formed: at most one slash.
pub open spec fn gv_wellformed(s: Seq<char>) -> bool {
    slash_free(s) || exists|i: int| single_slash_at(s, i)
}

/// The position of the only slash of a well-formed, non-core `apiVersion`.
pub open spec fn slash_index(s: Seq<char>) -> int {
    choose|i: int| single_slash_at(s, i)
}

/// The group a well-formed `apiVersion` declares; the core group is empty.
pub open spec fn group_of(s: Seq<char>) -> Seq<char> {
    if slash_free(s) {
        Seq::empty()
    } else {
        s.take(slash_index(s))
    }
}

/// The version a well-formed `apiVersion` declares.
pub open spec fn version_of(s: Seq<char>) -> Seq<char> {
    if slash_free(s) {
        s
    } else {
        s.subrange(slash_index(s) + 1, s.len() as int)
    }
}

/// Split a declared `apiVersion` into its group and version.
///
/// `"v1"` is the core group (empty group name), `"apps/v1"` is a named
/// group. More than one slash is malformed and rejected, which callers
/// treat as a fatal error for that one document.
pub fn parse_api_version(s: &str) -> (r: Option<(String, String)>)
    ensures
        match r {
            Some(gv) => gv_wellformed(s@) && gv.0@ == group_of(s@) && gv.1@ == version_of(s@),
            None => !gv_wellformed(s@),
        },
{
    let chars = crate::text::str_to_chars(s);
    let n = chars.len();
    let mut first: Option<usize> = None;
    let mut i: usize = 0;
    while i < n
        invariant
            chars@ == s@,
            n == s@.len(),
            i <= n,
            match first {
                None => forall|k: int| 0 <= k < i ==> s@[k] != '/',
                Some(f) => f < i && s@[f as int] == '/' && (forall|k: int|
                    0 <= k < i && k != f ==> s@[k] != '/'),
            },
        decreases n - i,
    {
        if chars[i] == '/' {
            match first {
                None => {
                    first = Some(i);
                },
                Some(f) => {
                    proof {
                        assert forall|j: int| !single_slash_at(s@, j) by {
                            if single_slash_at(s@, j) {
                                if j != f {
                                    assert(s@[f as int] != '/');
                                } else {
                                    assert(s@[i as int] != '/');
                                }
                            }
                        }
                        assert(!slash_free(s@));
                    }
                    return None;
                },
            }
        }
        i = i + 1;
    }
    match first {
        None => {
            let g: String = "".to_owned();
            proof {
                reveal_strlit("");
                assert(g@ =~= Seq::<char>::empty());
                assert(slash_free(s@));
            }
            Some((g, s.to_owned()))
        },
        Some(f) => {
            let g = s.substring_char(0, f).to_owned();
            let v = s.substring_char(f + 1, n).to_owned();
            proof {
                assert(single_slash_at(s@, f as int));
                assert(gv_wellformed(s@));
                assert(!slash_free(s@));
                let j = slash_index(s@);
                assert(single_slash_at(s@, j));
                assert(j == f) by {
                    if j != f {
                        assert(s@[f as int] != '/');
                    }
                }
                assert(g@ =~= s@.take(f as int));
            }
            Some((g, v))
        },
    }
}

/// Choose the client scope for one resolved resource.
///
/// A cluster-scoped resource, or an explicit request for all namespaces,
/// always gets the cluster-wide client — a namespace hint never overrides
/// that. Otherwise the hinted namespace is used, with a fixed default when
/// none is given.
pub fn select_scope(scope: ResourceScope, namespace: Option<&str>, all_namespaces: bool) -> (r:
    ClientScope)
    ensures
        (scope is Cluster || all_namespaces) ==> r is AllNamespaces,
        !(scope is Cluster || all_namespaces) ==> match namespace {
            Some(ns) => r matches ClientScope::Namespaced(x) && x@ == ns@,
            None => r matches ClientScope::Namespaced(x) && x@ == default_namespace(),
        },
{
    let cluster = match scope {
        ResourceScope::Cluster => true,
        ResourceScope::Namespaced => false,
    };
    if cluster || all_namespaces {
        ClientScope::AllNamespaces
    } else {
        match namespace {
            Some(ns) => ClientScope::Namespaced(ns.to_owned()),
            None => ClientScope::Namespaced("moonscale".to_owned()),
        }
    }
}

} // verus!
