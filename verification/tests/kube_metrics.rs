use kopiur_controller::kube_metrics::{
    classify_kube_request, is_watch_request, refine_patch_verb, request_labels, resource_shape,
    verb_for, KubeVerb, RequestLabels, OTHER,
};
use kopiur_controller::metrics::series::Label;

fn expect(verb: KubeVerb, group: &str, kind: &str) -> RequestLabels {
    RequestLabels {
        verb,
        group: group.to_string(),
        kind: kind.to_string(),
    }
}

#[test]
fn classify_core_group_object_and_collection() {
    assert_eq!(
        classify_kube_request("GET", "/api/v1/namespaces/x/secrets/y", None),
        expect(KubeVerb::Get, "", "secrets"),
    );
    assert_eq!(
        classify_kube_request("GET", "/api/v1/namespaces/x/secrets", None),
        expect(KubeVerb::List, "", "secrets"),
    );
    assert_eq!(
        classify_kube_request("GET", "/api/v1/persistentvolumes", None),
        expect(KubeVerb::List, "", "persistentvolumes"),
    );
}

#[test]
fn classify_named_group_paths() {
    assert_eq!(
        classify_kube_request(
            "GET",
            "/apis/kopiur.home-operations.com/v1alpha1/namespaces/x/snapshots",
            None,
        ),
        expect(KubeVerb::List, "kopiur.home-operations.com", "snapshots"),
    );
    assert_eq!(
        classify_kube_request(
            "PUT",
            "/apis/coordination.k8s.io/v1/namespaces/kopiur-system/leases/kopiur",
            None,
        ),
        expect(KubeVerb::Update, "coordination.k8s.io", "leases"),
    );
}

#[test]
fn classify_cluster_scoped_and_namespace_objects() {
    assert_eq!(
        classify_kube_request(
            "GET",
            "/apis/kopiur.home-operations.com/v1alpha1/clusterrepositories/nas",
            None,
        ),
        expect(
            KubeVerb::Get,
            "kopiur.home-operations.com",
            "clusterrepositories"
        ),
    );
    assert_eq!(
        classify_kube_request("GET", "/api/v1/namespaces/x", None),
        expect(KubeVerb::Get, "", "namespaces"),
    );
    assert_eq!(
        classify_kube_request("GET", "/api/v1/namespaces", None),
        expect(KubeVerb::List, "", "namespaces"),
    );
}

#[test]
fn classify_subresources_fold_into_kind() {
    assert_eq!(
        classify_kube_request(
            "PATCH",
            "/apis/kopiur.home-operations.com/v1alpha1/namespaces/x/snapshots/y/status",
            None,
        ),
        expect(
            KubeVerb::Patch,
            "kopiur.home-operations.com",
            "snapshots/status"
        ),
    );
    assert_eq!(
        classify_kube_request("GET", "/api/v1/namespaces/x/pods/y/exec", None),
        expect(KubeVerb::Get, "", "pods/exec"),
    );
}

#[test]
fn classify_watch_query_wins_over_path_shape() {
    assert_eq!(
        classify_kube_request(
            "GET",
            "/apis/kopiur.home-operations.com/v1alpha1/namespaces/x/snapshots",
            Some("watch=true&resourceVersion=5&timeoutSeconds=290"),
        )
        .verb,
        KubeVerb::Watch,
    );
    assert_eq!(
        classify_kube_request(
            "GET",
            "/api/v1/namespaces/x/secrets",
            Some("watch=false&labelSelector=a%3Db"),
        )
        .verb,
        KubeVerb::List,
    );
    assert_eq!(
        classify_kube_request(
            "DELETE",
            "/api/v1/namespaces/x/secrets/y",
            Some("watch=true")
        )
        .verb,
        KubeVerb::Delete,
    );
}

#[test]
fn classify_write_verbs_by_method_and_shape() {
    assert_eq!(
        classify_kube_request("POST", "/api/v1/namespaces/x/secrets", None).verb,
        KubeVerb::Create,
    );
    assert_eq!(
        classify_kube_request("DELETE", "/api/v1/namespaces/x/secrets/y", None).verb,
        KubeVerb::Delete,
    );
    assert_eq!(
        classify_kube_request("DELETE", "/api/v1/namespaces/x/secrets", None).verb,
        KubeVerb::DeleteCollection,
    );
    assert_eq!(
        classify_kube_request("HEAD", "/api/v1/namespaces/x/secrets", None).verb,
        KubeVerb::Other,
    );
}

#[test]
fn classify_unknown_paths_use_the_bounded_other_bucket() {
    for path in [
        "/version",
        "/api",
        "/apis",
        "/api/v1",
        "/openapi/v2",
        "/",
        "",
    ] {
        let got = classify_kube_request("GET", path, None);
        assert_eq!(
            got,
            expect(KubeVerb::Get, OTHER, OTHER),
            "path {path:?} must fold into the bounded other bucket",
        );
    }
    assert_eq!(
        classify_kube_request("GET", "/apis/kopiur.home-operations.com", None),
        expect(KubeVerb::Get, OTHER, OTHER),
    );
    assert_eq!(
        classify_kube_request(
            "GET",
            "/apis/kopiur.home-operations.com/v1alpha1",
            None
        ),
        expect(KubeVerb::Get, OTHER, OTHER),
    );
}

#[test]
fn refine_patch_to_apply_only_on_apply_content_type() {
    assert_eq!(
        refine_patch_verb(KubeVerb::Patch, Some("application/apply-patch+yaml")),
        KubeVerb::Apply,
    );
    assert_eq!(
        refine_patch_verb(KubeVerb::Patch, Some("application/merge-patch+json")),
        KubeVerb::Patch,
    );
    assert_eq!(refine_patch_verb(KubeVerb::Patch, None), KubeVerb::Patch);
    assert_eq!(
        refine_patch_verb(KubeVerb::Get, Some("application/apply-patch+yaml")),
        KubeVerb::Get,
    );
}
#[test]
fn layer_counts_each_request_once_with_all_labels() {
    let pairs = |labels: Vec<Label>| -> Vec<(&'static str, String)> {
        labels.into_iter().map(|l| (l.key, l.value)).collect()
    };
    let get = request_labels(
        "GET",
        "/apis/kopiur.home-operations.com/v1alpha1/namespaces/x/snapshots/y",
        None,
        None,
        "main",
    );
    assert_eq!(
        pairs(get),
        vec![
            ("verb", "get".to_string()),
            ("group", "kopiur.home-operations.com".to_string()),
            ("kind", "snapshots".to_string()),
            ("client", "main".to_string()),
        ]
    );
    let apply = request_labels(
        "PATCH",
        "/api/v1/namespaces/x/secrets/y",
        None,
        Some("application/apply-patch+yaml"),
        "main",
    );
    assert_eq!(
        pairs(apply),
        vec![
            ("verb", "apply".to_string()),
            ("group", "".to_string()),
            ("kind", "secrets".to_string()),
            ("client", "main".to_string()),
        ]
    );
}

#[test]
fn labels_of_two_objects_of_one_kind_are_the_same() {
    let a = classify_kube_request("GET", "/api/v1/namespaces/a/secrets/b", None);
    let b = classify_kube_request("GET", "/api/v1/namespaces/c/secrets/d", None);
    assert_eq!(a, b);
}

#[test]
fn a_watch_is_one_on_any_path() {
    assert_eq!(
        classify_kube_request("GET", "/version", Some("watch=true")),
        expect(KubeVerb::Watch, OTHER, OTHER),
    );
    assert_eq!(
        classify_kube_request("POST", "/version", Some("watch=true")),
        expect(KubeVerb::Create, OTHER, OTHER),
    );
    assert_eq!(
        classify_kube_request("GET", "/version", Some("watch=false")),
        expect(KubeVerb::Get, OTHER, OTHER),
    );
}

#[test]
fn shapes_and_verbs() {
    assert_eq!(resource_shape(&["pods", "x", "log"]), ("pods/log".to_string(), true));
    assert_eq!(
        resource_shape(&["namespaces", "n", "pods"]),
        ("pods".to_string(), false)
    );
    assert!(is_watch_request("GET", Some("a=b&watch=1")));
    assert!(!is_watch_request("POST", Some("watch=true")));
    assert_eq!(verb_for("DELETE", false, false), KubeVerb::DeleteCollection);
    assert_eq!(KubeVerb::DeleteCollection.as_str(), "deletecollection");
}
