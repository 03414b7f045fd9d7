use chloria::news::{FetchNewsArticle, FileEntity, NewsEntity};
use chloria::newsdata::{NewsdataClient, NewsdataResult, build_article, page_from_results};
use chloria::storage::credentials_need_renewal;
use chloria::task::{SaveNewsTask, TaskError, TaskStep, image_object_key, make_insert_news_input, save_news_outcome};

fn bare_result(id: &str) -> NewsdataResult {
    NewsdataResult {
        article_id: id.to_string(),
        link: Some("https://example.test/a".to_string()),
        title: Some("title".to_string()),
        description: Some("short".to_string()),
        image_url: Some("https://example.test/a.jpg".to_string()),
        pub_date: None,
        pub_date_tz: None,
    }
}

fn dated_result(id: &str, date: &str, tz: &str) -> NewsdataResult {
    NewsdataResult {
        pub_date: Some(date.to_string()),
        pub_date_tz: Some(tz.to_string()),
        ..bare_result(id)
    }
}

#[test]
fn provider_id_is_kept() {
    let news = NewsEntity::new(Some("abc".to_string()));
    assert_eq!(news.article_id, "abc");
}

#[test]
fn generated_id_is_sixteen_alphanumerics() {
    let news = NewsEntity::new(None);
    assert_eq!(news.article_id.len(), 16);
    assert!(news.article_id.chars().all(|c| c.is_ascii_alphanumeric()));
}

#[test]
fn file_entity_fills_what_is_missing() {
    let file = FileEntity::new(None, Some(5));
    assert_eq!(file.key.len(), 16);
    assert_eq!(file.created_time, 5);
    let named = FileEntity::new(Some("key1".to_string()), Some(7));
    assert_eq!(named.key, "key1");
    assert_eq!(named.created_time, 7);
}

#[test]
fn fresh_file_is_stamped_with_the_clock() {
    let file = FileEntity::new(Some("key1".to_string()), None);
    // well after the epoch, well before the year 10000
    assert!(file.created_time > 1_500_000_000_000);
    assert!(file.created_time < 253_402_300_800_000);
}

#[test]
fn image_key_carries_the_suffix() {
    assert_eq!(image_object_key("abc"), "abc.jpg");
}

#[test]
fn insert_input_carries_every_field() {
    let article = FetchNewsArticle {
        source_name: "NewsData".to_string(),
        id: Some("a1".to_string()),
        link: Some("l".to_string()),
        title: Some("t".to_string()),
        short_text: Some("s".to_string()),
        long_text: Some("g".to_string()),
        image_url: Some("u".to_string()),
        published_time: Some(42),
    };
    let row = make_insert_news_input(article, "a1".to_string(), Some("path/a1.jpg".to_string()));
    assert_eq!(row.source_name, "NewsData");
    assert_eq!(row.article_id, "a1");
    assert_eq!(row.link.as_deref(), Some("l"));
    assert_eq!(row.title.as_deref(), Some("t"));
    assert_eq!(row.short_text.as_deref(), Some("s"));
    assert_eq!(row.long_text.as_deref(), Some("g"));
    assert_eq!(row.image_path.as_deref(), Some("path/a1.jpg"));
    assert_eq!(row.published_time, Some(42));
}

#[test]
fn task_with_image_plans_the_upload() {
    let task = SaveNewsTask::new(FetchNewsArticle {
        source_name: "NewsData".to_string(),
        id: Some("a1".to_string()),
        link: None,
        title: None,
        short_text: None,
        long_text: None,
        image_url: Some("https://example.test/img".to_string()),
        published_time: Some(99),
    });
    let (news, step) = task.perform_step();
    assert_eq!(news.article_id, "a1");
    match step {
        TaskStep::FetchImage { url, key, source_name, created_time } => {
            assert_eq!(url, "https://example.test/img");
            assert_eq!(key, "a1.jpg");
            assert_eq!(source_name, "NewsData");
            assert_eq!(created_time, 99);
        }
        TaskStep::Done => panic!("a task with an image link owes an upload"),
    }
}

#[test]
fn task_without_image_is_done() {
    let task = SaveNewsTask::new(FetchNewsArticle {
        source_name: "NewsData".to_string(),
        id: None,
        link: None,
        title: None,
        short_text: None,
        long_text: None,
        image_url: None,
        published_time: None,
    });
    let (news, step) = task.perform_step();
    assert!(matches!(step, TaskStep::Done));
    assert_eq!(news.article_id.len(), 16);
    assert!(news.article_id.chars().all(|c| c.is_ascii_alphanumeric()));
}

#[test]
fn generated_key_stem_is_the_generated_id() {
    let task = SaveNewsTask::new(FetchNewsArticle {
        source_name: "NewsData".to_string(),
        id: None,
        link: None,
        title: None,
        short_text: None,
        long_text: None,
        image_url: Some("https://example.test/img".to_string()),
        published_time: Some(3),
    });
    let (news, step) = task.perform_step();
    match step {
        TaskStep::FetchImage { key, created_time, .. } => {
            assert_eq!(key, format!("{}.jpg", news.article_id));
            assert_eq!(created_time, 3);
        }
        TaskStep::Done => panic!("a task with an image link owes an upload"),
    }
}

#[test]
fn task_outcomes_degrade_instead_of_failing() {
    // the task never fails: image trouble only loses the image and is logged
    assert_eq!(save_news_outcome(false, false, false), (false, None));
    assert_eq!(save_news_outcome(true, false, false), (false, Some(TaskError::ImageFetch)));
    assert_eq!(save_news_outcome(true, true, false), (false, Some(TaskError::ImageUpload)));
    assert_eq!(save_news_outcome(true, true, true), (true, None));
}

#[test]
fn article_resolves_a_utc_timestamp() {
    let built = build_article(dated_result("a1", "2024-01-02 03:04:05", "UTC")).unwrap();
    assert_eq!(built.published_time, Some(1704164645000));
    assert_eq!(built.source_name, "NewsData");
    assert_eq!(built.id.as_deref(), Some("a1"));
    assert_eq!(built.short_text.as_deref(), Some("short"));
    assert_eq!(built.long_text, None);
}

#[test]
fn article_resolves_a_zoned_timestamp() {
    let built = build_article(dated_result("a1", "2024-01-02 03:04:05", "Asia/Tokyo")).unwrap();
    assert_eq!(built.published_time, Some(1704132245000));
}

#[test]
fn ambiguous_local_time_yields_no_instant() {
    let built = build_article(dated_result("a1", "2024-11-03 01:30:00", "America/New_York")).unwrap();
    assert_eq!(built.published_time, None);
}

#[test]
fn unreadable_timezone_abandons_the_article() {
    assert!(build_article(dated_result("a1", "2024-01-02 03:04:05", "Nowhere/Nope")).is_err());
}

#[test]
fn unreadable_date_abandons_the_article() {
    assert!(build_article(dated_result("a1", "not a date", "UTC")).is_err());
}

#[test]
fn undated_article_has_no_published_time() {
    let built = build_article(bare_result("a1")).unwrap();
    assert_eq!(built.published_time, None);
}

#[test]
fn empty_provider_id_counts_as_absent() {
    let built = build_article(bare_result("")).unwrap();
    assert_eq!(built.id, None);
}

#[test]
fn page_build_keeps_order_and_cursor() {
    let page = page_from_results(
        7,
        vec![bare_result("a1"), bare_result("a2")],
        Some("p2".to_string()),
    )
    .unwrap();
    assert_eq!(page.total_results, 7);
    assert_eq!(page.next_page.as_deref(), Some("p2"));
    assert_eq!(page.articles.len(), 2);
    assert_eq!(page.articles[0].id.as_deref(), Some("a1"));
    assert_eq!(page.articles[1].id.as_deref(), Some("a2"));
}

#[test]
fn one_bad_timestamp_abandons_the_page() {
    let r = page_from_results(
        7,
        vec![bare_result("a1"), dated_result("a2", "2024-01-02 03:04:05", "Nowhere/Nope")],
        None,
    );
    assert!(r.is_err());
}

#[test]
fn newsdata_client_keeps_its_configuration() {
    let client = NewsdataClient::new("key1".to_string(), Some(3));
    assert_eq!(client.api_key, "key1");
    assert_eq!(client.pages_num_limit, Some(3));
}

#[test]
fn credentials_renew_when_missing_or_stale() {
    assert!(credentials_need_renewal(None, 1_000_000));
    // expires well past the buffer
    assert!(!credentials_need_renewal(Some(1_000_000 + 120_000), 1_000_000));
    // expires within the buffer
    assert!(credentials_need_renewal(Some(1_000_000 + 30_000), 1_000_000));
    assert!(credentials_need_renewal(Some(i64::MIN), 0));
}
