//! Classification of Kubernetes API requests for the client's request metric.
//!
//! The labels carry the resource and the API group of a request, never the name
//! or the namespace of an object; a path that is not a resource URL falls into
//! one bucket.
use vstd::prelude::*;
use vstd::slice::slice_subrange;
use vstd::string::*;

use crate::metrics::instruments::{four, label};
use crate::metrics::series::{Label, label_views};
use crate::text::{
    joined, lemma_pieces_of_joined, opt_str, pieces, same, segments, split, split_nonempty,
    starts_with, str_texts,
};

verus! {

/// The label of requests whose path is not a resource URL.
pub const OTHER: &'static str = "other";

/// The API verb of a request.
#[derive(Debug, Clone, Copy, PartialEq, Eq, Structural)]
pub enum KubeVerb {
    /// `GET` of one object.
    Get,
    /// `GET` of a collection.
    List,
    /// `GET` that watches.
    Watch,
    /// `POST`.
    Create,
    /// `PUT`.
    Update,
    /// `PATCH` that is not a server-side apply.
    Patch,
    /// `PATCH` that is a server-side apply.
    Apply,
    /// `DELETE` of one object.
    Delete,
    /// `DELETE` of a collection.
    DeleteCollection,
    /// Any other method.
    Other,
}

/// The labels of one request.
#[derive(Debug, Clone, PartialEq, Eq)]
pub struct RequestLabels {
    /// The API verb.
    pub verb: KubeVerb,
    /// The API group: empty for the core group, [`OTHER`] for a path that is no
    /// resource URL.
    pub group: String,
    /// The resource in the plural, with its subresource, or [`OTHER`].
    pub kind: String,
}

/// What the labels of one request say.
pub struct RequestLabelsView {
    /// The API verb.
    pub verb: KubeVerb,
    /// The API group.
    pub group: Seq<char>,
    /// The resource.
    pub kind: Seq<char>,
}

impl View for RequestLabels {
    type V = RequestLabelsView;

    open spec fn view(&self) -> RequestLabelsView {
        RequestLabelsView { verb: self.verb, group: self.group@, kind: self.kind@ }
    }
}

impl KubeVerb {
    /// The text of the verb label.
    pub open spec fn label(self) -> Seq<char> {
        match self {
            KubeVerb::Get => "get"@,
            KubeVerb::List => "list"@,
            KubeVerb::Watch => "watch"@,
            KubeVerb::Create => "create"@,
            KubeVerb::Update => "update"@,
            KubeVerb::Patch => "patch"@,
            KubeVerb::Apply => "apply"@,
            KubeVerb::Delete => "delete"@,
            KubeVerb::DeleteCollection => "deletecollection"@,
            KubeVerb::Other => "other"@,
        }
    }

    /// The text of the verb label.
    pub fn as_str(self) -> (r: &'static str)
        ensures
            r@ == self.label(),
    {
        match self {
            KubeVerb::Get => "get",
            KubeVerb::List => "list",
            KubeVerb::Watch => "watch",
            KubeVerb::Create => "create",
            KubeVerb::Update => "update",
            KubeVerb::Patch => "patch",
            KubeVerb::Apply => "apply",
            KubeVerb::Delete => "delete",
            KubeVerb::DeleteCollection => "deletecollection",
            KubeVerb::Other => "other",
        }
    }
}

/// The API group of a resource URL and what follows its version, from the
/// segments of the path: `api/v1/<rest>` or `apis/<group>/<version>/<rest>`.
pub open spec fn resource_url(segs: Seq<Seq<char>>) -> Option<(Seq<char>, Seq<Seq<char>>)> {
    if segs.len() > 2 && segs[0] == "api"@ && segs[1] == "v1"@ {
        Some((Seq::empty(), segs.skip(2)))
    } else if segs.len() > 3 && segs[0] == "apis"@ {
        Some((segs[1], segs.skip(3)))
    } else {
        None
    }
}

/// What is left of a resource path without a leading `namespaces/<ns>`, which
/// is dropped only where more follows: else `namespaces` is the resource.
pub open spec fn within_namespace(parts: Seq<Seq<char>>) -> Seq<Seq<char>> {
    if parts.len() > 2 && parts[0] == "namespaces"@ {
        parts.skip(2)
    } else {
        parts
    }
}

/// The resource of a path, with its subresource where there is one.
pub open spec fn resource_kind(parts: Seq<Seq<char>>) -> Seq<char> {
    let p = within_namespace(parts);
    if p.len() == 0 {
        OTHER@
    } else if p.len() <= 2 {
        p[0]
    } else {
        p[0] + "/"@ + p[2]
    }
}

/// Whether a resource path names one object.
pub open spec fn names_object(parts: Seq<Seq<char>>) -> bool {
    within_namespace(parts).len() >= 2
}

/// Whether a request watches: a `GET` with `watch=true` or `watch=1` in its query.
pub open spec fn watches(method: Seq<char>, query: Option<Seq<char>>) -> bool {
    method == "GET"@ && (query matches Some(q) && (pieces(q, '&').contains("watch=true"@) || pieces(
        q,
        '&',
    ).contains("watch=1"@)))
}

/// The verb of a method on one object or on a collection.
pub open spec fn method_verb(method: Seq<char>, has_name: bool, watch: bool) -> KubeVerb {
    if watch {
        KubeVerb::Watch
    } else if method == "GET"@ {
        if has_name {
            KubeVerb::Get
        } else {
            KubeVerb::List
        }
    } else if method == "POST"@ {
        KubeVerb::Create
    } else if method == "PUT"@ {
        KubeVerb::Update
    } else if method == "PATCH"@ {
        KubeVerb::Patch
    } else if method == "DELETE"@ {
        if has_name {
            KubeVerb::Delete
        } else {
            KubeVerb::DeleteCollection
        }
    } else {
        KubeVerb::Other
    }
}

/// The labels of a request.
pub open spec fn classified(
    method: Seq<char>,
    path: Seq<char>,
    query: Option<Seq<char>>,
) -> RequestLabelsView {
    match resource_url(segments(path, '/')) {
        Some((group, parts)) => RequestLabelsView {
            verb: method_verb(method, names_object(parts), watches(method, query)),
            group,
            kind: resource_kind(parts),
        },
        None => RequestLabelsView {
            verb: method_verb(method, true, watches(method, query)),
            group: OTHER@,
            kind: OTHER@,
        },
    }
}

/// Classifies one request by its method, path and query.
///
/// A `GET` that asks to watch is a watch whatever the shape of its path. Any other
/// `GET` of a path that is no resource URL counts as the `get` of one object.
pub fn classify_kube_request(method: &str, path: &str, query: Option<&str>) -> (r: RequestLabels)
    ensures
        r@ == classified(method@, path@, opt_str(query)),
{
    let segs = split_nonempty(path, '/');
    let n: usize = segs.len();
    let ghost s = str_texts(segs@);
    let (group, from): (String, usize) = if n > 2 && same(segs[0], "api") && same(segs[1], "v1") {
        (String::new(), 2)
    } else if n > 3 && same(segs[0], "apis") {
        (segs[1].to_owned(), 3)
    } else {
        return RequestLabels {
            verb: verb_for(method, true, is_watch_request(method, query)),
            group: OTHER.to_owned(),
            kind: OTHER.to_owned(),
        };
    };
    let rest = slice_subrange(segs.as_slice(), from, n);
    assert(str_texts(rest@) =~= s.skip(from as int));
    let (kind, has_name) = resource_shape(rest);
    RequestLabels { verb: verb_for(method, has_name, is_watch_request(method, query)), group, kind }
}

/// The verb of a request whose content type is known: a `PATCH` that applies is an
/// apply.
pub open spec fn refined(verb: KubeVerb, content_type: Option<Seq<char>>) -> KubeVerb {
    match content_type {
        Some(ct) => if verb == KubeVerb::Patch && "application/apply-patch"@.is_prefix_of(ct) {
            KubeVerb::Apply
        } else {
            verb
        },
        None => verb,
    }
}

/// Makes a `PATCH` an apply where the content type says so.
pub fn refine_patch_verb(verb: KubeVerb, content_type: Option<&str>) -> (r: KubeVerb)
    ensures
        r == refined(verb, opt_str(content_type)),
{
    match (verb, content_type) {
        (KubeVerb::Patch, Some(ct)) => if starts_with(ct, "application/apply-patch") {
            KubeVerb::Apply
        } else {
            verb
        },
        _ => verb,
    }
}

/// The labels under which one request of a client is counted.
pub fn request_labels(
    method: &str,
    path: &str,
    query: Option<&str>,
    content_type: Option<&str>,
    client: &str,
) -> (r: Vec<Label>)
    ensures
        ({
            let base = classified(method@, path@, opt_str(query));
            label_views(r@) == seq![
                ("verb"@, refined(base.verb, opt_str(content_type)).label()),
                ("group"@, base.group),
                ("kind"@, base.kind),
                ("client"@, client@),
            ]
        }),
{
    let base = classify_kube_request(method, path, query);
    let verb = refine_patch_verb(base.verb, content_type);
    four(
        label("verb", verb.as_str()),
        label("group", base.group.as_str()),
        label("kind", base.kind.as_str()),
        label("client", client),
    )
}

/// The resource of the path segments behind the version, and whether they name
/// one object.
pub fn resource_shape(parts: &[&str]) -> (r: (String, bool))
    ensures
        r.0@ == resource_kind(str_texts(parts@)),
        r.1 == names_object(str_texts(parts@)),
{
    let n: usize = parts.len();
    let ghost s = str_texts(parts@);
    let from: usize = if n > 2 && same(parts[0], "namespaces") {
        2
    } else {
        0
    };
    assert(within_namespace(s) =~= s.skip(from as int));
    let left: usize = n - from;
    if left == 0 {
        (OTHER.to_owned(), false)
    } else if left <= 2 {
        (parts[from].to_owned(), left == 2)
    } else {
        let mut kind = parts[from].to_owned();
        kind.append("/");
        kind.append(parts[from + 2]);
        (kind, true)
    }
}

/// Whether a request watches.
pub fn is_watch_request(method: &str, query: Option<&str>) -> (r: bool)
    ensures
        r == watches(method@, opt_str(query)),
{
    if !same(method, "GET") {
        return false;
    }
    match query {
        None => false,
        Some(q) => {
            let all = split(q, '&');
            let ghost ps = str_texts(all@);
            let mut i: usize = 0;
            while i < all.len()
                invariant
                    i <= all@.len(),
                    ps == str_texts(all@),
                    ps == pieces(q@, '&'),
                    method@ == "GET"@,
                    query == Some(q),
                    forall|j: int| 0 <= j < i ==> ps[j] != "watch=true"@ && ps[j] != "watch=1"@,
                decreases all@.len() - i,
            {
                assert(ps[i as int] == all@[i as int]@);
                if same(all[i], "watch=true") || same(all[i], "watch=1") {
                    assert(ps.contains(ps[i as int]));
                    return true;
                }
                i += 1;
            }
            false
        },
    }
}

/// The verb of a method on one object or on a collection.
pub fn verb_for(method: &str, has_name: bool, watch: bool) -> (r: KubeVerb)
    ensures
        r == method_verb(method@, has_name, watch),
{
    if watch {
        KubeVerb::Watch
    } else if same(method, "GET") {
        if has_name {
            KubeVerb::Get
        } else {
            KubeVerb::List
        }
    } else if same(method, "POST") {
        KubeVerb::Create
    } else if same(method, "PUT") {
        KubeVerb::Update
    } else if same(method, "PATCH") {
        KubeVerb::Patch
    } else if same(method, "DELETE") {
        if has_name {
            KubeVerb::Delete
        } else {
            KubeVerb::DeleteCollection
        }
    } else {
        KubeVerb::Other
    }
}

/// Only a `GET` is a watch, and a `GET` that asks to watch is one whatever the shape
/// of its path.
pub proof fn lemma_watch_is_a_get(method: Seq<char>, path: Seq<char>, query: Option<Seq<char>>)
    ensures
        classified(method, path, query).verb == KubeVerb::Watch ==> method == "GET"@,
        classified(method, path, query).verb == KubeVerb::Watch <==> watches(method, query),
{
}

/// The name of an object and the namespace that it lives in never reach the
/// labels: two resource URLs that differ in nothing else are labelled alike.
pub proof fn lemma_labels_leave_names_out(
    parts: Seq<Seq<char>>,
    namespace: Seq<char>,
    name: Seq<char>,
)
    requires
        parts.len() > 2,
        parts[0] == "namespaces"@,
    ensures
        resource_kind(parts) == resource_kind(parts.update(1, namespace)),
        names_object(parts) == names_object(parts.update(1, namespace)),
        parts.len() > 3 ==> resource_kind(parts) == resource_kind(parts.update(3, name)),
        parts.len() > 3 ==> names_object(parts) == names_object(parts.update(3, name)),
{
    assert(parts.update(1, namespace).skip(2) =~= parts.skip(2));
    if parts.len() > 3 {
        assert(parts.update(3, name).skip(2) =~= parts.skip(2).update(1, name));
    }
}

/// A path that is no resource URL is labelled alike whatever it says.
pub proof fn lemma_other_paths_share_a_bucket(
    method: Seq<char>,
    a: Seq<char>,
    b: Seq<char>,
    query: Option<Seq<char>>,
)
    requires
        resource_url(segments(a, '/')) is None,
        resource_url(segments(b, '/')) is None,
    ensures
        classified(method, a, query) == classified(method, b, query),
{
}

/// What a path says behind its version: a resource, one object of it, or a subresource of
/// that, with the namespace that they live in or without. The name and the namespace of an
/// object show nowhere.
pub proof fn lemma_shapes_of_paths(
    ns: Seq<char>,
    resource: Seq<char>,
    name: Seq<char>,
    sub: Seq<char>,
)
    ensures
        resource_kind(seq![resource]) == resource && !names_object(seq![resource]),
        resource_kind(seq![resource, name]) == resource && names_object(seq![resource, name]),
        resource_kind(seq!["namespaces"@, ns, resource]) == resource && !names_object(
            seq!["namespaces"@, ns, resource],
        ),
        resource_kind(seq!["namespaces"@, ns, resource, name]) == resource && names_object(
            seq!["namespaces"@, ns, resource, name],
        ),
        resource_kind(seq!["namespaces"@, ns, resource, name, sub]) == resource + seq!['/'] + sub
            && names_object(seq!["namespaces"@, ns, resource, name, sub]),
        resource != "namespaces"@ ==> resource_kind(seq![resource, name, sub]) == resource + seq!['/']
            + sub && names_object(seq![resource, name, sub]),
{
    reveal_strlit("/");
    assert("/"@ =~= seq!['/']);
    let a = seq!["namespaces"@, ns, resource];
    let b = seq!["namespaces"@, ns, resource, name];
    let c = seq!["namespaces"@, ns, resource, name, sub];
    assert(a.skip(2) =~= seq![resource]);
    assert(b.skip(2) =~= seq![resource, name]);
    assert(c.skip(2) =~= seq![resource, name, sub]);
}

/// Which paths are resource URLs: those of the core group, which has no name, and those of
/// a named group; a discovery path, which ends with the version, is none.
pub proof fn lemma_which_paths_are_resources(
    group: Seq<char>,
    version: Seq<char>,
    rest: Seq<Seq<char>>,
)
    ensures
        rest.len() > 0 ==> resource_url(seq!["api"@, "v1"@] + rest) == Some(
            (Seq::<char>::empty(), rest),
        ),
        rest.len() > 0 ==> resource_url(seq!["apis"@, group, version] + rest) == Some((group, rest)),
        resource_url(seq!["api"@, "v1"@]) is None,
        resource_url(seq!["apis"@, group, version]) is None,
        resource_url(seq!["apis"@, group]) is None,
        (rest.len() > 0 && rest[0] != "api"@ && rest[0] != "apis"@) ==> resource_url(rest) is None,
        resource_url(Seq::empty()) is None,
        version != "v1"@ ==> resource_url(seq!["api"@, version] + rest) is None,
{
    reveal_strlit("api");
    reveal_strlit("apis");
    assert("api"@.len() != "apis"@.len());
    let (a, b) = (seq!["api"@, "v1"@] + rest, seq!["apis"@, group, version] + rest);
    assert(a.skip(2) =~= rest);
    assert(b.skip(3) =~= rest);
    assert((seq!["api"@, version] + rest)[1] == version);
}

/// A request on a resource is labelled by its group, its resource and what it does; one on
/// any other path by what it does alone.
pub proof fn lemma_labels_of_requests(
    method: Seq<char>,
    path: Seq<char>,
    query: Option<Seq<char>>,
    group: Seq<char>,
    rest: Seq<Seq<char>>,
)
    ensures
        resource_url(segments(path, '/')) == Some((group, rest)) ==> {
            let l = classified(method, path, query);
            &&& l.group == group
            &&& l.kind == resource_kind(rest)
            &&& l.verb == method_verb(method, names_object(rest), watches(method, query))
        },
        resource_url(segments(path, '/')) is None ==> {
            let l = classified(method, path, query);
            &&& l.group == "other"@
            &&& l.kind == "other"@
            &&& l.verb == method_verb(method, true, watches(method, query))
        },
{
}

/// What each method does, on one object and on many.
pub proof fn lemma_verbs()
    ensures
        method_verb("GET"@, true, false) == KubeVerb::Get,
        method_verb("GET"@, false, false) == KubeVerb::List,
        method_verb("GET"@, true, true) == KubeVerb::Watch,
        method_verb("GET"@, false, true) == KubeVerb::Watch,
        forall|named: bool| #[trigger] method_verb("POST"@, named, false) == KubeVerb::Create,
        forall|named: bool| #[trigger] method_verb("PUT"@, named, false) == KubeVerb::Update,
        forall|named: bool| #[trigger] method_verb("PATCH"@, named, false) == KubeVerb::Patch,
        method_verb("DELETE"@, true, false) == KubeVerb::Delete,
        method_verb("DELETE"@, false, false) == KubeVerb::DeleteCollection,
        forall|m: Seq<char>, named: bool|
            m != "GET"@ && m != "POST"@ && m != "PUT"@ && m != "PATCH"@ && m != "DELETE"@
                ==> #[trigger] method_verb(m, named, false) == KubeVerb::Other,
{
    reveal_strlit("GET");
    reveal_strlit("POST");
    reveal_strlit("PUT");
    reveal_strlit("PATCH");
    reveal_strlit("DELETE");
    assert("GET"@[0] == 'G');
    assert("PUT"@[0] == 'P');
    assert("GET"@.len() == 3 && "PUT"@.len() == 3 && "POST"@.len() == 4 && "PATCH"@.len() == 5
        && "DELETE"@.len() == 6);
}

/// A request watches where it is a `GET` whose query says so in a part of its own: among
/// others, anywhere.
pub proof fn lemma_what_watches(before: Seq<Seq<char>>, after: Seq<Seq<char>>, part: Seq<char>)
    requires
        forall|i: int| 0 <= i < before.len() ==> !(#[trigger] before[i]).contains('&'),
        forall|i: int| 0 <= i < after.len() ==> !(#[trigger] after[i]).contains('&'),
    ensures
        forall|m: Seq<char>| !(#[trigger] watches(m, None)),
        forall|m: Seq<char>, q: Seq<char>| m != "GET"@ ==> !(#[trigger] watches(m, Some(q))),
        (part == "watch=true"@ || part == "watch=1"@) ==> watches(
            "GET"@,
            Some(joined(before + seq![part] + after, seq!['&'])),
        ),
        (forall|i: int|
            0 <= i < before.len() ==> (#[trigger] before[i]) != "watch=true"@ && before[i]
                != "watch=1"@) && before.len() > 0 ==> !watches(
            "GET"@,
            Some(joined(before, seq!['&'])),
        ),
{
    reveal_strlit("watch=true");
    reveal_strlit("watch=1");
    if part == "watch=true"@ || part == "watch=1"@ {
        let all = before + seq![part] + after;
        assert forall|i: int| 0 <= i < all.len() implies !(#[trigger] all[i]).contains('&') by {
            if i < before.len() {
                assert(all[i] == before[i]);
            } else if i > before.len() {
                assert(all[i] == after[i - before.len() - 1]);
            }
        }
        lemma_pieces_of_joined(all, '&');
        assert(all[before.len() as int] == part);
        assert(all.contains(part));
    }
    if before.len() > 0 {
        lemma_pieces_of_joined(before, '&');
        if before.contains("watch=true"@) {
            let i = before.index_of("watch=true"@);
            assert(before[i] == "watch=true"@);
        }
        if before.contains("watch=1"@) {
            let i = before.index_of("watch=1"@);
            assert(before[i] == "watch=1"@);
        }
    }
}

/// A `PATCH` whose content type is that of server-side apply is an apply. No other verb
/// and no other content type changes anything.
pub proof fn lemma_what_is_an_apply(verb: KubeVerb, rest: Seq<char>, other: Seq<char>)
    ensures
        refined(KubeVerb::Patch, Some("application/apply-patch"@ + rest)) == KubeVerb::Apply,
        verb != KubeVerb::Patch ==> refined(verb, Some(other)) == verb,
        refined(verb, None) == verb,
        other.len() < 23 ==> refined(verb, Some(other)) == verb,
        refined(verb, Some(other)) == verb || (verb == KubeVerb::Patch && refined(verb, Some(other))
            == KubeVerb::Apply && other.take(23) == "application/apply-patch"@),
{
    reveal_strlit("application/apply-patch");
    assert("application/apply-patch"@.len() == 23);
    let whole = "application/apply-patch"@ + rest;
    assert(whole.subrange(0, 23) =~= "application/apply-patch"@);
    assert("application/apply-patch"@.is_prefix_of(whole));
    if "application/apply-patch"@.is_prefix_of(other) {
        assert(other.take(23) =~= "application/apply-patch"@);
    }
}

/// The words for the verbs.
pub proof fn lemma_words_for_verbs()
    ensures
        KubeVerb::Get.label() == "get"@,
        KubeVerb::List.label() == "list"@,
        KubeVerb::Watch.label() == "watch"@,
        KubeVerb::Create.label() == "create"@,
        KubeVerb::Update.label() == "update"@,
        KubeVerb::Patch.label() == "patch"@,
        KubeVerb::Apply.label() == "apply"@,
        KubeVerb::Delete.label() == "delete"@,
        KubeVerb::DeleteCollection.label() == "deletecollection"@,
        KubeVerb::Other.label() == "other"@,
{
}

/// What the labels of a request say.
pub proof fn lemma_what_request_labels_say(l: RequestLabels)
    ensures
        l@.verb == l.verb,
        l@.group == l.group@,
        l@.kind == l.kind@,
{
}

} // verus!
