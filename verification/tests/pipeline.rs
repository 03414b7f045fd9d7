use chloria::collect::{ChannelLife, CollectNewsCase, ProviderPlan, dispatch_all, drain_to_store};
use chloria::fetch::{PageData, PageEvent, Pagination, paginate_events};
use chloria::news::{FetchNewsArticle, InsertNewsInput};
use chloria::sink::{BatchSink, plan_batches};
use chloria::store::NewsStore;
use chloria::workshop::{Config, Workshop, estimated_case_duration, estimated_schedule_duration};

fn article(source: &str, id: Option<&str>) -> FetchNewsArticle {
    FetchNewsArticle {
        source_name: source.to_string(),
        id: id.map(|s| s.to_string()),
        link: None,
        title: None,
        short_text: None,
        long_text: None,
        image_url: Some(String::new()),
        published_time: None,
    }
}

fn record(source: &str, id: &str) -> InsertNewsInput {
    InsertNewsInput {
        source_name: source.to_string(),
        article_id: id.to_string(),
        link: None,
        title: None,
        short_text: None,
        long_text: None,
        image_path: None,
        published_time: None,
    }
}

fn loaded(total: u16, articles: Vec<FetchNewsArticle>, next: Option<&str>) -> PageEvent {
    PageEvent::Loaded(PageData {
        total_results: total,
        articles,
        next_page: next.map(|s| s.to_string()),
    })
}

#[test]
fn check_required_duration() {
    const CASE_PERMITS_NUM: usize = 2;
    const CASES_NUM: usize = 3;
    const PAGES_NUM: usize = 2;
    const PAGE_LOAD_DURATION: usize = 1000;
    const PAGE_NEWS_NUM: usize = 6;
    const NEWS_LOAD_DURATION: usize = 2000;
    const TASK_PERMITS_NUM: usize = 10;
    assert!(CASES_NUM > CASE_PERMITS_NUM);
    assert!(PAGES_NUM * PAGE_NEWS_NUM > TASK_PERMITS_NUM);
    assert!(NEWS_LOAD_DURATION > PAGE_LOAD_DURATION);
    let case = estimated_case_duration(
        PAGE_LOAD_DURATION as u64,
        PAGES_NUM as u64,
        PAGE_NEWS_NUM as u64,
        TASK_PERMITS_NUM as u64,
        NEWS_LOAD_DURATION as u64,
    )
    .unwrap();
    // 1000 + ceil(12 / 10) * 2000
    assert_eq!(case, 5000);
    let total = estimated_schedule_duration(CASES_NUM as u64, CASE_PERMITS_NUM as u64, case).unwrap();
    // ceil(3 / 2) * 5000
    assert_eq!(total, 10000);
}

#[test]
fn ceiling_division_rounds_up() {
    assert_eq!(chloria::workshop::div_ceil_usize(12, 5), 3);
    assert_eq!(chloria::workshop::div_ceil_usize(10, 5), 2);
    assert_eq!(chloria::workshop::div_ceil_usize(0, 5), 0);
    assert_eq!(chloria::workshop::div_ceil_usize(1, 1), 1);
}

#[test]
fn batch_sizes_follow_the_ceiling() {
    let records: Vec<InsertNewsInput> = (0..12).map(|i| record("NewsData", &format!("a{i}"))).collect();
    let batches = plan_batches(records, 5);
    assert_eq!(batches.len(), 3);
    assert_eq!(batches[0].len(), 5);
    assert_eq!(batches[1].len(), 5);
    assert_eq!(batches[2].len(), 2);
    assert_eq!(batches[0][0].article_id, "a0");
    assert_eq!(batches[2][1].article_id, "a11");
}

#[test]
fn exact_multiple_needs_no_trailing_batch() {
    let records: Vec<InsertNewsInput> = (0..10).map(|i| record("NewsData", &format!("a{i}"))).collect();
    let batches = plan_batches(records, 5);
    assert_eq!(batches.len(), 2);
    assert_eq!(batches[1].len(), 5);
}

#[test]
fn no_records_no_batches() {
    let batches = plan_batches(Vec::new(), 5);
    assert_eq!(batches.len(), 0);
}

#[test]
fn short_run_is_one_partial_batch() {
    let records: Vec<InsertNewsInput> = (0..3).map(|i| record("NewsData", &format!("a{i}"))).collect();
    let batches = plan_batches(records, 5);
    assert_eq!(batches.len(), 1);
    assert_eq!(batches[0].len(), 3);
}

#[test]
fn sink_flushes_on_the_batch_boundary() {
    let mut sink = BatchSink::new(2);
    assert!(sink.accept(record("NewsData", "a")).is_none());
    let flushed = sink.accept(record("NewsData", "b")).unwrap();
    assert_eq!(flushed.len(), 2);
    assert!(sink.accept(record("NewsData", "c")).is_none());
    let tail = sink.finish().unwrap();
    assert_eq!(tail.len(), 1);
    assert_eq!(tail[0].article_id, "c");
    assert!(sink.finish().is_none());
    sink.add_inserted(3);
    assert_eq!(sink.inserted_news_count(), 3);
}

#[test]
fn store_ignores_duplicate_keys() {
    let mut store = NewsStore::new();
    let ids = store.insert_news(vec![
        record("NewsData", "a"),
        record("NewsData", "b"),
        record("NewsData", "a"),
    ]);
    // row ids are the kept rows' one-based positions
    assert_eq!(ids, vec![1, 2]);
    let again = store.insert_news(vec![record("NewsData", "a"), record("NewsData", "b")]);
    assert_eq!(again.len(), 0);
    let other_source = store.insert_news(vec![record("Yahoo", "a")]);
    assert_eq!(other_source, vec![3]);
    assert_eq!(store.len(), 3);
}

#[test]
fn drain_counts_only_new_keys() {
    let mut store = NewsStore::new();
    let first: Vec<InsertNewsInput> = (0..7).map(|i| record("NewsData", &format!("a{i}"))).collect();
    assert_eq!(drain_to_store(first, 3, &mut store), 7);
    let mut second: Vec<InsertNewsInput> = (0..7).map(|i| record("NewsData", &format!("a{i}"))).collect();
    second.push(record("NewsData", "fresh"));
    assert_eq!(drain_to_store(second, 3, &mut store), 1);
    assert_eq!(store.len(), 8);
}

#[test]
fn pagination_stops_at_the_page_limit() {
    let events = vec![
        loaded(100, vec![article("NewsData", Some("a"))], Some("p2")),
        loaded(100, vec![article("NewsData", Some("b"))], Some("p3")),
        loaded(100, vec![article("NewsData", Some("c"))], Some("p4")),
    ];
    let dispatched = paginate_events(Some(2), events);
    assert_eq!(dispatched.len(), 2);
    assert_eq!(dispatched[0].id.as_deref(), Some("a"));
    assert_eq!(dispatched[1].id.as_deref(), Some("b"));
}

#[test]
fn pagination_stops_when_the_estimate_runs_out() {
    let events = vec![
        loaded(2, vec![article("NewsData", Some("a")), article("NewsData", Some("b"))], Some("p2")),
        loaded(2, vec![article("NewsData", Some("c"))], Some("p3")),
    ];
    let dispatched = paginate_events(None, events);
    assert_eq!(dispatched.len(), 2);
}

#[test]
fn remaining_estimate_is_seeded_once() {
    // only the first page's reported total seeds the estimate; later totals
    // are ignored, and the estimate pays out each page's yield
    let events = vec![
        loaded(4, vec![article("NewsData", Some("a")), article("NewsData", Some("b"))], Some("p2")),
        loaded(999, vec![article("NewsData", Some("c")), article("NewsData", Some("d"))], Some("p3")),
        loaded(999, vec![article("NewsData", Some("e"))], Some("p4")),
    ];
    let dispatched = paginate_events(None, events);
    assert_eq!(dispatched.len(), 4);
}

#[test]
fn pagination_stops_without_a_cursor() {
    let events = vec![
        loaded(100, vec![article("NewsData", Some("a"))], None),
        loaded(100, vec![article("NewsData", Some("b"))], Some("p3")),
    ];
    let dispatched = paginate_events(None, events);
    assert_eq!(dispatched.len(), 1);
}

#[test]
fn failed_page_keeps_earlier_dispatches() {
    let events = vec![
        loaded(100, vec![article("NewsData", Some("a")), article("NewsData", Some("b"))], Some("p2")),
        PageEvent::Failed,
        loaded(100, vec![article("NewsData", Some("c"))], Some("p4")),
    ];
    let dispatched = paginate_events(None, events);
    assert_eq!(dispatched.len(), 2);
    assert_eq!(dispatched[1].id.as_deref(), Some("b"));
}

#[test]
fn pagination_state_follows_the_pages() {
    let mut st = Pagination::start();
    assert!(!st.should_stop(None));
    assert!(st.should_stop(Some(0)));
    let cont = st.apply_page(10, 4, Some("p2".to_string()));
    assert!(cont);
    assert_eq!(st.remaining_results_num, Some(6));
    assert_eq!(st.page_index, 1);
    assert_eq!(st.page.as_deref(), Some("p2"));
    let cont = st.apply_page(10, 6, None);
    assert!(!cont);
    assert_eq!(st.remaining_results_num, Some(0));
    assert!(st.should_stop(None));
}

#[test]
fn one_providers_failure_leaves_the_others_whole() {
    let healthy = ProviderPlan {
        pages_num_limit: None,
        events: vec![loaded(2, vec![article("NewsData", Some("a")), article("NewsData", Some("b"))], None)],
    };
    let failing = ProviderPlan {
        pages_num_limit: None,
        events: vec![
            loaded(100, vec![article("Yahoo", Some("y1"))], Some("p2")),
            PageEvent::Failed,
        ],
    };
    let (articles, counts) = dispatch_all(vec![healthy, failing]);
    assert_eq!(counts, vec![2, 1]);
    assert_eq!(articles.len(), 3);
    assert_eq!(articles[2].id.as_deref(), Some("y1"));
}

#[test]
fn collect_case_reports_both_totals() {
    let provider = ProviderPlan {
        pages_num_limit: None,
        events: vec![
            loaded(
                4,
                vec![article("NewsData", Some("a")), article("NewsData", Some("b"))],
                Some("p2"),
            ),
            loaded(4, vec![article("NewsData", Some("c")), article("NewsData", Some("a"))], None),
        ],
    };
    let case = CollectNewsCase::new(10, 2);
    let mut store = NewsStore::new();
    let image_paths = vec![Some("x/a.jpg".to_string()), None, None, None];
    let (dispatched, inserted) = case.execute_model(vec![provider], image_paths, &mut store);
    assert_eq!(dispatched, 4);
    // the duplicate id "a" within the run is kept once
    assert_eq!(inserted, 3);
    assert_eq!(store.len(), 3);
}

#[test]
fn second_run_with_the_same_ids_inserts_nothing() {
    let plan = || ProviderPlan {
        pages_num_limit: None,
        events: vec![loaded(
            2,
            vec![article("NewsData", Some("a")), article("NewsData", Some("b"))],
            None,
        )],
    };
    let case = CollectNewsCase::new(10, 5);
    let mut store = NewsStore::new();
    let (d1, i1) = case.execute_model(vec![plan()], Vec::new(), &mut store);
    assert_eq!((d1, i1), (2, 2));
    let (d2, i2) = case.execute_model(vec![plan()], Vec::new(), &mut store);
    assert_eq!(d2, 2);
    assert_eq!(i2, 0);
}

#[test]
fn channel_closes_only_after_the_drop_and_the_last_task() {
    let mut life = ChannelLife::new();
    life.dispatch_task();
    life.dispatch_task();
    assert!(!life.is_closed());
    life.finish_task();
    life.finish_task();
    // every task resolved, but the orchestrator still holds its sender
    assert!(!life.is_closed());
    life.drop_orchestrator_sender();
    assert!(life.is_closed());
}

#[test]
fn case_with_no_tasks_still_completes() {
    let mut life = ChannelLife::new();
    life.drop_orchestrator_sender();
    assert!(life.is_closed());
}

#[test]
fn workshop_bounds_concurrent_cases() {
    let mut workshop = Workshop::new(Config { case_permits_num: 2 });
    assert!(workshop.begin_case());
    assert!(workshop.begin_case());
    assert!(!workshop.begin_case());
    workshop.end_case();
    assert!(workshop.begin_case());
}
