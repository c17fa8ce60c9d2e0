use windsock::report::{MetricIdentifier, ReportArchive, Timestamp};
use windsock::tags::Tags;
use windsock::store::{
    archive_path, baseline_archive_path, baseline_outcome, baseline_path, cloud_resources_path,
    last_run_path, storage_root_index, StoreError,
};

fn archive() -> ReportArchive {
    ReportArchive {
        running_in_release: false,
        tags: Tags::new(vec![]).unwrap(),
        bench_started_at: Timestamp { unix_nanos: 1 },
        operations_report: None,
        pubsub_report: None,
        error_messages: vec![],
        info_messages: vec![],
    }
}

#[test]
fn store_layout() {
    assert_eq!(cloud_resources_path("data"), "data/cloud_resources");
    assert_eq!(last_run_path("/tmp/w"), "/tmp/w/last_run");
    assert_eq!(baseline_path("/tmp/w"), "/tmp/w/baseline");
    assert_eq!(archive_path("root", "db=cassandra"), "root/last_run/db=cassandra");
    assert_eq!(baseline_archive_path("root", "db=kafka"), "root/baseline/db=kafka");
}

#[test]
fn missing_baseline_is_none() {
    assert_eq!(baseline_outcome::<ReportArchive>(Err(StoreError::NotFound)), Ok(None));
    assert_eq!(baseline_outcome(Ok(archive())), Ok(Some(archive())));
    assert_eq!(
        baseline_outcome::<ReportArchive>(Err(StoreError::FormatChanged)),
        Err(StoreError::FormatChanged)
    );
    assert_eq!(
        baseline_outcome::<ReportArchive>(Err(StoreError::Io("denied".to_owned()))),
        Err(StoreError::Io("denied".to_owned()))
    );
}

#[test]
fn metric_identity_is_kind_and_name() {
    let a = MetricIdentifier::Total { name: "cpu".to_owned() };
    assert!(a == MetricIdentifier::Total { name: "cpu".to_owned() });
    assert!(a != MetricIdentifier::EachSecond { name: "cpu".to_owned() });
    assert!(a != MetricIdentifier::Total { name: "mem".to_owned() });
}

fn pairs(list: &[(&str, &str)]) -> Vec<(String, String)> {
    list.iter().map(|(k, v)| (k.to_string(), v.to_string())).collect()
}

#[test]
fn tags_name_is_sorted_by_key() {
    let tags = Tags::new(pairs(&[
        ("db", "cassandra"),
        ("topology", "3_nodes"),
        ("compression", "LZ4"),
    ]))
    .unwrap();
    assert_eq!(tags.name(), "compression=LZ4,db=cassandra,topology=3_nodes");
    assert_eq!(tags.pairs().len(), 3);
    assert_eq!(Tags::new(vec![]).unwrap().name(), "");
}

#[test]
fn same_tags_in_any_order_give_one_name() {
    let a = Tags::new(pairs(&[("b", "2"), ("a", "1"), ("c", "3")])).unwrap();
    let b = Tags::new(pairs(&[("c", "3"), ("b", "2"), ("a", "1")])).unwrap();
    assert_eq!(a, b);
    assert_eq!(a.name(), "a=1,b=2,c=3");
    // Byte order: upper case before lower case, a prefix before its extensions.
    let c = Tags::new(pairs(&[("ab", "x"), ("a", "y"), ("B", "z")])).unwrap();
    assert_eq!(c.name(), "B=z,a=y,ab=x");
}

#[test]
fn duplicate_tag_keys_are_refused() {
    assert_eq!(Tags::new(pairs(&[("db", "a"), ("os", "linux"), ("db", "b")])), None);
    assert_eq!(Tags::new(pairs(&[("db", "a"), ("db", "a")])), None);
}

fn components(parts: &[&str]) -> Vec<String> {
    parts.iter().map(|p| p.to_string()).collect()
}

#[test]
fn store_root_under_deepest_target() {
    assert_eq!(
        storage_root_index(&components(&["/", "work", "target", "debug", "deps", "bench"])),
        Some(2)
    );
    assert_eq!(
        storage_root_index(&components(&["/", "target", "x", "target", "release", "bench"])),
        Some(3)
    );
}

#[test]
fn store_root_falls_back_without_target() {
    assert_eq!(storage_root_index(&components(&["/", "usr", "bin", "bench"])), None);
    // The program itself is not an ancestor.
    assert_eq!(storage_root_index(&components(&["/", "opt", "target"])), None);
    assert_eq!(storage_root_index(&components(&[])), None);
}
