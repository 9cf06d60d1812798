use usage_report::batch::process_project_data;
use usage_report::models::ProjectSource;
use usage_report::models::Usage;
use usage_report::models::UsageMetrics;
use usage_report::numbers::format_cost2;
use usage_report::numbers::format_cost4;
use usage_report::numbers::format_u64;
use usage_report::numbers::parse_cost;
use usage_report::query::get_daily;
use usage_report::query::get_models;
use usage_report::query::get_monthly;
use usage_report::query::get_projects;
use usage_report::query::DailyParams;
use usage_report::query::ModelsParams;
use usage_report::query::MonthlyParams;
use usage_report::query::ProjectsParams;
use usage_report::views::process_all_project_data;
use usage_report::views::process_daily_usage;
use usage_report::views::process_model_usage;
use usage_report::views::process_monthly_usage;
use usage_report::views::process_projects;

fn event_line(ts: &str, session: &str, model: &str, input: u64, output: u64, cc: u64, cr: u64) -> String {
    format!(
        r#"{{"timestamp":"{}","sessionId":"{}","message":{{"model":"{}","usage":{{"input_tokens":{},"output_tokens":{},"cache_creation_input_tokens":{},"cache_read_input_tokens":{}}}}}}}"#,
        ts, session, model, input, output, cc, cr
    )
}

fn alpha_corpus() -> Vec<ProjectSource> {
    vec![ProjectSource {
        name: "alpha".to_string(),
        path: "/logs/alpha".to_string(),
        lines: vec![
            event_line("2024-01-01T10:00:00Z", "s1", "m1", 1000, 500, 0, 0),
            event_line("2024-01-02T09:00:00Z", "s2", "m1", 2000, 0, 100, 50),
        ],
    }]
}

#[test]
fn metric_identities_hold_per_event() {
    let a = Usage {
        input_tokens: Some(1000),
        output_tokens: Some(500),
        cache_creation_tokens: Some(0),
        cache_read_tokens: Some(0),
    };
    let ma = UsageMetrics::from_usage(&a);
    assert_eq!(ma.total_tokens, ma.input_tokens + ma.output_tokens + ma.cache_creation_tokens + ma.cache_read_tokens);
    assert_eq!(ma.cached_tokens, ma.cache_creation_tokens + ma.cache_read_tokens);
    assert_eq!(ma.total_tokens, 1500);
    assert_eq!(ma.cost_nano, 10_500_000);

    let b = Usage {
        input_tokens: Some(2000),
        output_tokens: Some(0),
        cache_creation_tokens: Some(100),
        cache_read_tokens: Some(50),
    };
    let mb = UsageMetrics::from_usage(&b);
    assert_eq!(mb.cached_tokens, 150);
    assert_eq!(mb.total_tokens, 2150);
    assert_eq!(mb.new_input_tokens, 1900);
    assert_eq!(mb.cost_nano, 6_390_000);
}

#[test]
fn new_input_floors_at_zero() {
    let u = Usage {
        input_tokens: Some(10),
        output_tokens: None,
        cache_creation_tokens: Some(25),
        cache_read_tokens: None,
    };
    let m = UsageMetrics::from_usage(&u);
    assert_eq!(m.new_input_tokens, 0);
    assert_eq!(m.input_tokens, 10);
    assert_eq!(m.cache_creation_tokens, 25);
}

#[test]
fn worked_example_daily_view() {
    let corpus = alpha_corpus();
    let daily = process_daily_usage(&corpus);
    assert_eq!(daily.len(), 2);
    assert_eq!(daily[0].date, "2024-01-01");
    assert_eq!(daily[0].total_tokens, 1500);
    assert_eq!(daily[0].cost, "0.0105");
    assert_eq!(daily[0].sessions, 1);
    assert_eq!(daily[1].date, "2024-01-02");
    assert_eq!(daily[1].cached_tokens, 150);
    assert_eq!(daily[1].total_tokens, 2150);
    assert_eq!(daily[1].new_input_tokens, 1900);
    assert_eq!(daily[1].cost, "0.0064");
}

#[test]
fn worked_example_project_totals() {
    let corpus = alpha_corpus();
    let projects = process_projects(&corpus);
    assert_eq!(projects.len(), 1);
    assert_eq!(projects[0].name, "alpha");
    assert_eq!(projects[0].total_tokens, 3650);
    assert_eq!(projects[0].message_count, 2);
    assert_eq!(
        projects[0].last_activity,
        Some("2024-01-02T09:00:00Z".to_string())
    );
}

#[test]
fn aggregation_twice_is_identical() {
    let corpus = alpha_corpus();
    let first = process_all_project_data(&corpus);
    let second = process_all_project_data(&corpus);
    assert_eq!(first.daily_usage, second.daily_usage);
    assert_eq!(first.monthly_usage, second.monthly_usage);
    assert_eq!(first.model_usage, second.model_usage);
    assert_eq!(first.projects, second.projects);
}

#[test]
fn bucket_sums_match_event_sums() {
    let mut corpus = alpha_corpus();
    corpus.push(ProjectSource {
        name: "beta".to_string(),
        path: "/logs/beta".to_string(),
        lines: vec![
            event_line("2024-01-01T11:00:00Z", "s3", "m2", 7, 3, 0, 0),
            event_line("2024-02-05T11:00:00Z", "s3", "m1", 20, 10, 5, 5),
        ],
    });
    // per-event totals: 1500 + 2150 + 10 + 40
    let expect: u64 = 1500 + 2150 + 10 + 40;
    let daily = process_daily_usage(&corpus);
    assert_eq!(daily.iter().map(|d| d.total_tokens).sum::<u64>(), expect);
    let monthly = process_monthly_usage(&corpus);
    assert_eq!(monthly.iter().map(|m| m.total_tokens).sum::<u64>(), expect);
    let models = process_model_usage(&corpus);
    assert_eq!(models.iter().map(|m| m.total_tokens).sum::<u64>(), expect);
    let projects = process_projects(&corpus);
    assert_eq!(projects.iter().map(|p| p.total_tokens).sum::<u64>(), expect);
}

#[test]
fn lines_without_usage_or_timestamp_contribute_nothing_to_buckets() {
    let corpus = vec![ProjectSource {
        name: "alpha".to_string(),
        path: "/logs/alpha".to_string(),
        lines: vec![
            // counted message without usage record
            r#"{"timestamp":"2024-01-03T10:00:00Z","sessionId":"s9","message":{"model":"m1"}}"#
                .to_string(),
            // no timestamp: skipped entirely by the serving counters
            r#"{"sessionId":"s9","message":{"model":"m1","usage":{"input_tokens":5}}}"#
                .to_string(),
            // not JSON at all
            "not json".to_string(),
            "".to_string(),
        ],
    }];
    let daily = process_daily_usage(&corpus);
    assert_eq!(daily.len(), 0);
    let projects = process_projects(&corpus);
    assert_eq!(projects[0].message_count, 1);
    assert_eq!(projects[0].total_tokens, 0);
    assert_eq!(
        projects[0].last_activity,
        Some("2024-01-03T10:00:00Z".to_string())
    );
}

#[test]
fn model_defaults_to_unknown() {
    let corpus = vec![ProjectSource {
        name: "alpha".to_string(),
        path: "/logs/alpha".to_string(),
        lines: vec![
            r#"{"timestamp":"2024-01-01T10:00:00Z","message":{"usage":{"input_tokens":5}}}"#
                .to_string(),
        ],
    }];
    let models = process_model_usage(&corpus);
    assert_eq!(models.len(), 1);
    assert_eq!(models[0].model, "unknown");
    assert_eq!(models[0].input_tokens, 5);
    // no session identifier: the session set stays empty
    assert_eq!(models[0].sessions, 0);
    assert_eq!(models[0].messages, 1);
}

#[test]
fn sessions_count_distinct_identifiers() {
    let corpus = vec![ProjectSource {
        name: "alpha".to_string(),
        path: "/logs/alpha".to_string(),
        lines: vec![
            event_line("2024-01-01T10:00:00Z", "s1", "m1", 1, 0, 0, 0),
            event_line("2024-01-01T11:00:00Z", "s1", "m1", 1, 0, 0, 0),
            event_line("2024-01-01T12:00:00Z", "s2", "m1", 1, 0, 0, 0),
        ],
    }];
    let daily = process_daily_usage(&corpus);
    assert_eq!(daily.len(), 1);
    assert_eq!(daily[0].sessions, 2);
}

#[test]
fn pagination_empty_view() {
    let corpus: Vec<ProjectSource> = vec![];
    let resp = get_daily(&corpus, &DailyParams::default());
    assert_eq!(resp.data.len(), 0);
    assert_eq!(resp.pagination.total_items, 0);
    assert_eq!(resp.pagination.total_pages, 0);
    assert!(!resp.pagination.has_next);
    assert!(!resp.pagination.has_prev);
}

#[test]
fn pagination_page_beyond_end() {
    let corpus = alpha_corpus();
    let resp = get_daily(
        &corpus,
        &DailyParams { page: 5, limit: 1 },
    );
    assert_eq!(resp.data.len(), 0);
    assert_eq!(resp.pagination.total_items, 2);
    assert_eq!(resp.pagination.total_pages, 2);
    assert_eq!(resp.pagination.current_page, 5);
    assert!(!resp.pagination.has_next);
    assert!(resp.pagination.has_prev);
}

#[test]
fn pagination_slices_pages() {
    let corpus = alpha_corpus();
    let resp = get_daily(
        &corpus,
        &DailyParams { page: 2, limit: 1 },
    );
    assert_eq!(resp.data.len(), 1);
    assert_eq!(resp.data[0].date, "2024-01-02");
    assert!(!resp.pagination.has_next);
    assert!(resp.pagination.has_prev);
    assert_eq!(resp.pagination.items_per_page, 1);
}

#[test]
fn monthly_year_filter_and_clamp() {
    let mut corpus = alpha_corpus();
    corpus[0].lines.push(event_line("2023-12-31T01:00:00Z", "s7", "m1", 1, 0, 0, 0));
    let resp = get_monthly(
        &corpus,
        &MonthlyParams { page: 1, limit: 0, year: Some("2024".to_string()) },
    );
    // limit 0 clamps to 1 per page; only 2024 months remain
    assert_eq!(resp.pagination.total_items, 1);
    assert_eq!(resp.pagination.items_per_page, 1);
    assert_eq!(resp.data[0].month, "2024-01");
    assert_eq!(resp.data[0].messages, 2);

    let all = get_monthly(&corpus, &MonthlyParams::default());
    assert_eq!(all.pagination.total_items, 2);
    assert_eq!(all.data[0].month, "2023-12");
    assert_eq!(all.data[1].month, "2024-01");
}

#[test]
fn models_sorted_by_unrecognized_key_is_unchanged() {
    let mut corpus = alpha_corpus();
    corpus[0].lines.push(event_line("2024-01-03T10:00:00Z", "s1", "zeta", 9000, 0, 0, 0));
    corpus[0].lines.push(event_line("2024-01-03T11:00:00Z", "s1", "Alpha", 4, 0, 0, 0));
    let default_order = get_models(&corpus, &ModelsParams::default());
    let shuffled = get_models(
        &corpus,
        &ModelsParams { sort_by: "nonsense".to_string(), sort_order: "asc".to_string() },
    );
    assert_eq!(default_order.data, shuffled.data);
}

#[test]
fn models_sort_and_stats() {
    let mut corpus = alpha_corpus();
    corpus[0].lines.push(event_line("2024-01-03T10:00:00Z", "s3", "zeta", 9000, 0, 0, 0));
    corpus[0].lines.push(event_line("2024-01-03T11:00:00Z", "s4", "Alpha", 4, 0, 0, 0));
    // default order: descending by total tokens -> zeta first
    let resp = get_models(&corpus, &ModelsParams::default());
    assert_eq!(resp.data[0].model, "zeta");
    assert_eq!(resp.stats.most_used_model, Some("zeta".to_string()));
    assert_eq!(resp.stats.total_models, 3);
    assert_eq!(resp.stats.total_sessions, 2 + 1 + 1);

    // case-insensitive name sort ascending: Alpha, m1, zeta
    let by_name = get_models(
        &corpus,
        &ModelsParams { sort_by: "model".to_string(), sort_order: "asc".to_string() },
    );
    assert_eq!(by_name.data[0].model, "Alpha");
    assert_eq!(by_name.data[1].model, "m1");
    assert_eq!(by_name.data[2].model, "zeta");
    // the most-used model follows the default order, not the caller sort
    assert_eq!(by_name.stats.most_used_model, Some("zeta".to_string()));
}

#[test]
fn projects_search_is_case_insensitive() {
    let mut corpus = alpha_corpus();
    corpus.push(ProjectSource {
        name: "Gamma".to_string(),
        path: "/logs/Gamma".to_string(),
        lines: vec![event_line("2024-03-01T10:00:00Z", "s5", "m1", 1, 0, 0, 0)],
    });
    let resp = get_projects(
        &corpus,
        &ProjectsParams { search: Some("GAMMA".to_string()), ..ProjectsParams::default() },
    );
    assert_eq!(resp.data.len(), 1);
    assert_eq!(resp.data[0].name, "Gamma");
    assert_eq!(resp.stats.total_projects, 1);
}

#[test]
fn projects_min_cost_filter() {
    let mut corpus = alpha_corpus();
    corpus.push(ProjectSource {
        name: "tiny".to_string(),
        path: "/logs/tiny".to_string(),
        lines: vec![event_line("2024-03-01T10:00:00Z", "s5", "m1", 1, 0, 0, 0)],
    });
    // alpha costs 0.0169 dollars; tiny costs 0.0000 (rounded string "0.0000")
    let resp = get_projects(
        &corpus,
        &ProjectsParams { min_cost: Some(10_000_000), ..ProjectsParams::default() },
    );
    assert_eq!(resp.data.len(), 1);
    assert_eq!(resp.data[0].name, "alpha");
}

#[test]
fn projects_default_order_is_last_activity_descending() {
    let mut corpus = alpha_corpus();
    corpus.push(ProjectSource {
        name: "newer".to_string(),
        path: "/logs/newer".to_string(),
        lines: vec![event_line("2025-06-01T10:00:00Z", "s5", "m1", 1, 0, 0, 0)],
    });
    let projects = process_projects(&corpus);
    assert_eq!(projects[0].name, "newer");
    assert_eq!(projects[1].name, "alpha");

    let asc = get_projects(
        &corpus,
        &ProjectsParams {
            sort_by: "lastActivity".to_string(),
            sort_order: "asc".to_string(),
            ..ProjectsParams::default()
        },
    );
    assert_eq!(asc.data[0].name, "alpha");
    assert_eq!(asc.data[1].name, "newer");
}

#[test]
fn projects_stats_sum_filtered_rows() {
    let corpus = alpha_corpus();
    let resp = get_projects(&corpus, &ProjectsParams::default());
    assert_eq!(resp.stats.total_projects, 1);
    assert_eq!(resp.stats.total_tokens, 3650);
    assert_eq!(resp.stats.total_messages, 2);
    // 0.0105 + 0.0064 dollars, re-parsed from the rendered row strings
    assert_eq!(resp.stats.total_cost, "0.02");
}

#[test]
fn cost_formatting_exact_values() {
    assert_eq!(format_cost4(10_500_000), "0.0105");
    assert_eq!(format_cost4(6_390_000), "0.0064");
    assert_eq!(format_cost4(0), "0.0000");
    assert_eq!(format_cost4(1_999_999_999), "2.0000");
    assert_eq!(format_cost4(12_345_649_999), "12.3456");
    assert_eq!(format_cost2(10_500_000), "0.01");
    assert_eq!(format_cost2(1_999_999_999), "2.00");
    assert_eq!(format_u64(0), "0");
    assert_eq!(format_u64(9081726354), "9081726354");
}

#[test]
fn cost_parsing_round_trips_and_recovers() {
    assert_eq!(parse_cost("0.0105"), 10_500_000);
    assert_eq!(parse_cost("12.3456"), 12_345_600_000);
    assert_eq!(parse_cost("7"), 7_000_000_000);
    assert_eq!(parse_cost("0.000000001"), 1);
    // failures read as zero
    assert_eq!(parse_cost(""), 0);
    assert_eq!(parse_cost("abc"), 0);
    assert_eq!(parse_cost("1.2.3"), 0);
    assert_eq!(parse_cost("-1"), 0);
    assert_eq!(parse_cost("."), 0);
}

#[test]
fn batch_report_counts_every_parsed_line() {
    let corpus = vec![ProjectSource {
        name: "alpha".to_string(),
        path: "/logs/alpha".to_string(),
        lines: vec![
            event_line("2024-01-02T10:00:00Z", "s1", "m1", 1, 0, 0, 0),
            // parsed but payload-free: the batch variant still counts it
            r#"{"timestamp":"2024-09-09T10:00:00Z"}"#.to_string(),
            "garbage".to_string(),
        ],
    }];
    let data = process_project_data(&corpus);
    assert_eq!(data.projects.len(), 1);
    assert_eq!(data.projects[0].message_count, 2);
    // any timestamp moves the batch last activity
    assert_eq!(
        data.projects[0].last_activity,
        Some("2024-09-09T10:00:00Z".to_string())
    );
    // the serving variant counts only payload-carrying lines
    let projects = process_projects(&corpus);
    assert_eq!(projects[0].message_count, 1);
    assert_eq!(
        projects[0].last_activity,
        Some("2024-01-02T10:00:00Z".to_string())
    );
}

#[test]
fn batch_detailed_usage_is_chronological_with_distinct_sessions() {
    let corpus = vec![ProjectSource {
        name: "alpha".to_string(),
        path: "/logs/alpha".to_string(),
        lines: vec![
            event_line("2024-01-05T10:00:00Z", "s2", "m1", 2, 0, 0, 0),
            event_line("2024-01-01T10:00:00Z", "s1", "m1", 1, 0, 0, 0),
            event_line("2024-01-03T10:00:00Z", "s1", "m1", 3, 0, 0, 0),
        ],
    }];
    let data = process_project_data(&corpus);
    assert_eq!(data.detailed_usage.len(), 3);
    assert_eq!(data.detailed_usage[0].timestamp, "2024-01-01T10:00:00Z");
    assert_eq!(data.detailed_usage[1].timestamp, "2024-01-03T10:00:00Z");
    assert_eq!(data.detailed_usage[2].timestamp, "2024-01-05T10:00:00Z");
    assert_eq!(data.total_sessions, 2);
}

#[test]
fn count_parsed_lines_splits_ok_and_failed() {
    let lines: Vec<String> = vec![
        event_line("2024-01-01T10:00:00Z", "s1", "m1", 1, 0, 0, 0),
        "nonsense".to_string(),
        "   ".to_string(),
        "".to_string(),
        r#"{"timestamp":null}"#.to_string(),
        // valid JSON, but the record shape is an object: counted as a failure
        "42".to_string(),
    ];
    let (ok, failed) = usage_report::parse::count_parsed_lines(&lines);
    assert_eq!(ok, 2);
    assert_eq!(failed, 2);
}
