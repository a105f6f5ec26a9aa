use harbor_router::metrics::{
    append_images, escape_label_value, rank, render, render_after, warmup_keys, Metrics,
};

#[test]
fn test_escape_label_value() {
    assert_eq!(escape_label_value("simple"), "simple");
    assert_eq!(escape_label_value("with\"quote"), "with\\\"quote");
    assert_eq!(escape_label_value("with\\slash"), "with\\\\slash");
    assert_eq!(escape_label_value("with\nnewline"), "with\\nnewline");
}

#[test]
fn test_record_manifest_request() {
    let mut metrics = Metrics::new();

    metrics.record_manifest_request("nginx", "latest");
    metrics.record_manifest_request("nginx", "latest");
    metrics.record_manifest_request("redis", "7.0");

    assert_eq!(metrics.manifest_requests("nginx:latest").unwrap(), 2);
    assert_eq!(metrics.manifest_requests("redis:7.0").unwrap(), 1);
}

#[test]
fn escapes_do_not_run_into_each_other() {
    assert_eq!(escape_label_value("\\n"), "\\\\n");
    assert_eq!(escape_label_value("\\\"\n"), "\\\\\\\"\\n");
    assert_eq!(escape_label_value(""), "");
}

#[test]
fn manifests_and_blobs_are_counted_apart() {
    let mut metrics = Metrics::new();
    assert!(metrics.try_record_blob_request("nginx"));
    metrics.record_blob_request("nginx");
    assert!(metrics.try_record_manifest_request("nginx", "latest"));
    assert_eq!(metrics.blob_requests("nginx"), Some(2));
    assert_eq!(metrics.blob_requests("nginx:latest"), None);
    assert_eq!(metrics.manifest_requests("nginx:latest"), Some(1));
    assert_eq!(metrics.manifest_requests("nginx"), None);
}

fn ask(metrics: &mut Metrics, image: &str, times: u64) {
    for _ in 0..times {
        metrics.record_blob_request(image);
        metrics.record_manifest_request(image, "latest");
    }
}

#[test]
fn the_most_requested_images_come_first() {
    let mut metrics = Metrics::new();
    ask(&mut metrics, "rare", 9);
    ask(&mut metrics, "some", 10);
    ask(&mut metrics, "many", 30);
    ask(&mut metrics, "more", 20);
    assert_eq!(
        metrics.top_blob_images(100),
        vec![
            ("many".to_string(), 30),
            ("more".to_string(), 20),
            ("some".to_string(), 10)
        ]
    );
    assert_eq!(
        metrics.top_manifest_images(2),
        vec![
            ("many:latest".to_string(), 30),
            ("more:latest".to_string(), 20)
        ]
    );
    assert!(metrics.top_blob_images(0).is_empty());
}

#[test]
fn ranking_keeps_the_order_of_equals() {
    let items = vec![
        ("a".to_string(), 10),
        ("b".to_string(), 30),
        ("c".to_string(), 10),
        ("d".to_string(), 9),
        ("e".to_string(), 30),
    ];
    let names: Vec<String> = rank(items.clone(), 10).into_iter().map(|p| p.0).collect();
    assert_eq!(names, vec!["b", "e", "a", "c"]);
    let names: Vec<String> = rank(items, 3).into_iter().map(|p| p.0).collect();
    assert_eq!(names, vec!["b", "e", "a"]);
}

#[test]
fn images_asked_for_once_make_room() {
    let mut metrics = Metrics::new();
    metrics.record_blob_request("kept");
    metrics.record_blob_request("kept");
    for i in 0..9_999 {
        metrics.record_blob_request(&format!("image{}", i));
    }
    let present = |m: &Metrics| {
        (0..10_002)
            .filter(|i| m.blob_requests(&format!("image{}", i)).is_some())
            .count()
    };
    assert_eq!(present(&metrics), 9_999);
    metrics.record_blob_request("image9999");
    assert_eq!(present(&metrics), 9_000);
    assert_eq!(metrics.blob_requests("kept"), Some(2));
    metrics.record_blob_request("image10000");
    assert!(present(&metrics) >= 9_000);
}

#[test]
fn image_metrics_have_an_exact_text() {
    let text = append_images(
        "head\n".to_string(),
        &vec![("ngi\"nx:latest".to_string(), 120)],
        &vec![("nginx".to_string(), 30), ("redis".to_string(), 10)],
        7,
        0,
    );
    let expected = "head\n\
\n# HELP harbor_router_top_manifest_images Top requested images by manifest pulls\n\
# TYPE harbor_router_top_manifest_images gauge\n\
harbor_router_top_manifest_images{image=\"ngi\\\"nx:latest\"} 120\n\
\n# HELP harbor_router_top_blob_images Top requested images by blob pulls\n\
# TYPE harbor_router_top_blob_images gauge\n\
harbor_router_top_blob_images{image=\"nginx\"} 30\n\
harbor_router_top_blob_images{image=\"redis\"} 10\n\
\n# HELP harbor_router_tracked_images_total Number of unique images being tracked\n\
# TYPE harbor_router_tracked_images_total gauge\n\
harbor_router_tracked_images_total{type=\"manifest\"} 7\n\
harbor_router_tracked_images_total{type=\"blob\"} 0\n";
    assert_eq!(text, expected);
}

#[test]
fn rendering_shows_registered_metrics_and_images() {
    let counter = prometheus::IntCounter::new("some_registered_counter", "a counter").unwrap();
    counter.inc_by(3);
    prometheus::register(Box::new(counter)).unwrap();
    let mut metrics = Metrics::new();
    ask(&mut metrics, "nginx", 12);
    let text = render(&metrics).unwrap();
    assert!(text.contains("some_registered_counter 3\n"));
    assert!(text.contains("harbor_router_top_manifest_images{image=\"nginx:latest\"} 12\n"));
    assert!(text.contains("harbor_router_top_blob_images{image=\"nginx\"} 12\n"));
    assert!(text.ends_with("harbor_router_tracked_images_total{type=\"blob\"} 1\n"));
}

#[test]
fn the_registered_metrics_decide_whether_rendering_succeeds() {
    let mut metrics = Metrics::new();
    ask(&mut metrics, "nginx", 10);
    let text = render_after(&metrics, Ok("head\n".to_string())).unwrap();
    assert_eq!(
        text,
        append_images(
            "head\n".to_string(),
            &vec![("nginx:latest".to_string(), 10)],
            &vec![("nginx".to_string(), 10)],
            1,
            1,
        )
    );
    let broken = Err(prometheus::Error::Msg("no metric".to_string()));
    assert!(matches!(
        render_after(&metrics, broken),
        Err(prometheus::Error::Msg(cause)) if cause == "no metric"
    ));
}

#[test]
fn the_manifests_asked_for_most_pass_to_another_router() {
    let mut metrics = Metrics::new();
    ask(&mut metrics, "rare", 9);
    ask(&mut metrics, "some", 10);
    ask(&mut metrics, "many", 30);
    let (key, json) = metrics.warmup_entry(100);
    assert_eq!(key, "warmup:images");
    assert_eq!(json, "[\"many:latest\",\"some:latest\"]");
    assert_eq!(
        warmup_keys(Some(json.as_str())),
        vec!["many:latest", "some:latest"]
    );
    assert_eq!(metrics.warmup_entry(1).1, "[\"many:latest\"]");
    assert_eq!(metrics.warmup_entry(0).1, "[]");
    assert!(warmup_keys(None).is_empty());
    assert!(warmup_keys(Some("not json")).is_empty());
}
