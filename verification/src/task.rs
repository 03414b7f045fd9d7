//! The item processor: given one raw article, decide what outside work is
//! owed (an image fetch and an upload, or nothing), and produce the
//! normalized row. Failures of the outside work degrade the article to
//! "no image"; they never fail the pipeline.

use vstd::prelude::*;
use vstd::string::StringExecFns;

use crate::news::{ARTICLE_ID_LENGTH, FetchNewsArticle, InsertNewsInput, NewsEntity, is_alphanumeric_char, now_millis};

verus! {

/// Which bucket a stored object belongs to.
pub enum FileObjectKind {
    /// The original image as fetched from the provider.
    Origin,
}

/// Everything an upload needs besides the storage client itself.
pub struct UploadFileInput {
    pub kind: FileObjectKind,
    /// Code name of the source used to fetch the news.
    pub source_name: String,
    /// Unique key to differentiate this file from others.
    pub key: String,
    /// Content of the file.
    pub bytes: Vec<u8>,
    /// When the file was created, in milliseconds since the Unix epoch.
    pub created_time: i64,
}

/// The storage key of an article's image: the article id with the image
/// suffix.
pub fn image_object_key(article_id: &str) -> (r: String)
    ensures
        r@ == article_id@ + ".jpg"@,
{
    let mut key = article_id.to_owned();
    key.append(".jpg");
    key
}

/// The collect pipeline's per-article result row: every article field is
/// carried over unchanged under the id decided for this run, and the image
/// path is whatever the image work resolved to — none when there was no
/// image or its fetch or upload failed.
pub fn make_insert_news_input(article: FetchNewsArticle, article_id: String, image_path: Option<String>) -> (r: InsertNewsInput)
    requires
        article_id@.len() > 0,
    ensures
        r.source_name == article.source_name,
        r.article_id == article_id,
        r.link == article.link,
        r.title == article.title,
        r.short_text == article.short_text,
        r.long_text == article.long_text,
        r.image_path == image_path,
        r.published_time == article.published_time,
{
    InsertNewsInput {
        source_name: article.source_name,
        article_id,
        link: article.link,
        title: article.title,
        short_text: article.short_text,
        long_text: article.long_text,
        image_path,
        published_time: article.published_time,
    }
}

/// Why an article's image work came to nothing; the pipeline logs these and
/// goes on — they never fail the task.
#[derive(Debug, PartialEq, Eq)]
pub enum TaskError {
    /// The image bytes could not be fetched.
    ImageFetch,
    /// The fetched image could not be uploaded.
    ImageUpload,
}

/// The outside work one save-news task owes.
pub enum TaskStep {
    /// Fetch the image at `url`, then upload it under `key` for `source_name`
    /// with `created_time`.
    FetchImage { url: String, key: String, source_name: String, created_time: i64 },
    /// Nothing to do: the article carries no image link.
    Done,
}

/// One article's processing: retrieve and store its image, when it has one.
pub struct SaveNewsTask {
    pub fetch_news_article: FetchNewsArticle,
}

impl SaveNewsTask {
    pub fn new(fetch_news_article: FetchNewsArticle) -> (r: SaveNewsTask)
        ensures
            r.fetch_news_article == fetch_news_article,
    {
        SaveNewsTask { fetch_news_article }
    }

    /// Decides the article's identity and the task's outside work, before any
    /// of that work starts. The id — the provider's own, or a fresh
    /// fixed-length one — serves both as the row's dedup key and as the stem
    /// of the image's storage key. An article without an image link owes
    /// nothing more; otherwise its image is fetched and uploaded under
    /// `<id>.jpg`, stamped with the published time when known, else with the
    /// clock.
    pub fn perform_step(self) -> (r: (NewsEntity, TaskStep))
        requires
            self.fetch_news_article.id matches Some(id) ==> id@.len() > 0,
        ensures
            r.0.article_id@.len() > 0,
            self.fetch_news_article.id matches Some(id) ==> r.0.article_id == id,
            self.fetch_news_article.id is None ==> {
                &&& r.0.article_id@.len() == ARTICLE_ID_LENGTH
                &&& forall|i: int| 0 <= i < r.0.article_id@.len()
                    ==> is_alphanumeric_char(#[trigger] r.0.article_id@[i])
            },
            self.fetch_news_article.image_url is None ==> r.1 is Done,
            self.fetch_news_article.image_url matches Some(image_url) ==> (
                r.1 matches TaskStep::FetchImage { url, key, source_name, created_time } && {
                    &&& url == image_url
                    &&& source_name == self.fetch_news_article.source_name
                    &&& key@ == r.0.article_id@ + ".jpg"@
                    &&& (self.fetch_news_article.published_time matches Some(t) ==> created_time == t)
                }
            ),
    {
        let FetchNewsArticle { source_name, id, image_url, published_time, .. } = self.fetch_news_article;
        let news = NewsEntity::new(id);
        let step = match image_url {
            Some(url) => {
                let key = image_object_key(news.article_id.as_str());
                let created_time = match published_time {
                    Some(t) => t,
                    None => now_millis(),
                };
                TaskStep::FetchImage { url, key, source_name, created_time }
            }
            None => TaskStep::Done,
        };
        (news, step)
    }
}

/// What a save-news task reports once its outside work has come back: the
/// task itself never fails — an article without an image owed nothing, and a
/// failed fetch or upload degrades the article to "no image". It reports
/// whether the image was stored, and the diagnosis to log when it was not.
pub fn save_news_outcome(had_image: bool, fetch_ok: bool, upload_ok: bool) -> (r: (bool, Option<TaskError>))
    ensures
        r.0 == (had_image && fetch_ok && upload_ok),
        !had_image ==> r.1 is None,
        had_image && !fetch_ok ==> r.1 == Some(TaskError::ImageFetch),
        had_image && fetch_ok && !upload_ok ==> r.1 == Some(TaskError::ImageUpload),
        had_image && fetch_ok && upload_ok ==> r.1 is None,
{
    if !had_image {
        (false, None)
    } else if !fetch_ok {
        (false, Some(TaskError::ImageFetch))
    } else if !upload_ok {
        (false, Some(TaskError::ImageUpload))
    } else {
        (true, None)
    }
}

} // verus!
