//! Domain records of the collection pipeline: the raw article a provider
//! yields, the canonical identity assigned to it for one run, the transient
//! file record naming an uploaded image, and the normalized row handed to the
//! store.

use vstd::prelude::*;

verus! {

/// Length of a generated article id.
pub const ARTICLE_ID_LENGTH: usize = 16;

/// Length of a generated file key.
pub const FILE_KEY_LENGTH: usize = 16;

/// An ASCII letter or digit, the alphabet of generated identifiers.
pub open spec fn is_alphanumeric_char(c: char) -> bool {
    ('0' <= c && c <= '9') || ('a' <= c && c <= 'z') || ('A' <= c && c <= 'Z')
}

/// Relies on rand's `Alphanumeric::sample_string` (via `SampleString`): it
/// appends exactly `len` uniformly drawn ASCII alphanumeric characters to an
/// empty string. The drawn characters are random, so nothing more is stated.
#[verifier::external_body]
fn random_alphanumeric(len: usize) -> (r: String)
    ensures
        r@.len() == len,
        forall|i: int| 0 <= i < r@.len() ==> is_alphanumeric_char(#[trigger] r@[i]),
{
    rand::distr::SampleString::sample_string(&rand::distr::Alphanumeric, &mut rand::rng(), len)
}

/// Relies on chrono's `Local::now`: the current wall-clock time as
/// milliseconds since the Unix epoch. The clock decides the value, so nothing
/// is stated about it.
#[verifier::external_body]
pub(crate) fn now_millis() -> i64 {
    chrono::Local::now().timestamp_millis()
}

/// One article as a provider yielded it; immutable once yielded.
/// Timestamps are milliseconds since the Unix epoch.
pub struct FetchNewsArticle {
    /// Code name of the source used to fetch the news.
    pub source_name: String,
    /// Unique id for news from the same source, when the provider has one.
    pub id: Option<String>,
    /// Link to the original content.
    pub link: Option<String>,
    /// Title of the content.
    pub title: Option<String>,
    /// Short description or summary of the content.
    pub short_text: Option<String>,
    /// Full text or detailed content.
    pub long_text: Option<String>,
    /// Url of the representative image in the original content.
    pub image_url: Option<String>,
    /// When the news was published.
    pub published_time: Option<i64>,
}

/// The canonical identity assigned to an article for this run. The id is
/// decided before any further work so that it can serve both as the image key
/// and as the store's idempotency key.
pub struct NewsEntity {
    /// Unique article id distinguishing this news from others; never empty.
    pub article_id: String,
}

impl NewsEntity {
    /// Adopts the provider's id when there is one, else generates a fresh
    /// random id of fixed length.
    pub fn new(article_id: Option<String>) -> (r: NewsEntity)
        requires
            article_id matches Some(id) ==> id@.len() > 0,
        ensures
            r.article_id@.len() > 0,
            article_id matches Some(id) ==> r.article_id == id,
            article_id is None ==> {
                &&& r.article_id@.len() == ARTICLE_ID_LENGTH
                &&& forall|i: int| 0 <= i < r.article_id@.len()
                    ==> is_alphanumeric_char(#[trigger] r.article_id@[i])
            },
    {
        let id = match article_id {
            Some(id) => id,
            None => random_alphanumeric(ARTICLE_ID_LENGTH),
        };
        NewsEntity { article_id: id }
    }
}

/// A stored file's name and creation time; exists only to name an uploaded
/// image.
pub struct FileEntity {
    /// Unique key distinguishing this file from others; never empty.
    pub key: String,
    /// When the file was created, in milliseconds since the Unix epoch.
    pub created_time: i64,
}

impl FileEntity {
    /// Adopts the given key and creation time where present; otherwise
    /// generates a fixed-length random key, and stamps the current time.
    pub fn new(key: Option<String>, created_time: Option<i64>) -> (r: FileEntity)
        requires
            key matches Some(k) ==> k@.len() > 0,
        ensures
            r.key@.len() > 0,
            key matches Some(k) ==> r.key == k,
            key is None ==> {
                &&& r.key@.len() == FILE_KEY_LENGTH
                &&& forall|i: int| 0 <= i < r.key@.len()
                    ==> is_alphanumeric_char(#[trigger] r.key@[i])
            },
            created_time matches Some(t) ==> r.created_time == t,
    {
        let k = match key {
            Some(k) => k,
            None => random_alphanumeric(FILE_KEY_LENGTH),
        };
        let t = match created_time {
            Some(t) => t,
            None => now_millis(),
        };
        FileEntity { key: k, created_time: t }
    }
}

/// The fully normalized row ready for persistence. The pair
/// `(source_name, article_id)` is the key on which the store ignores
/// conflicting inserts.
pub struct InsertNewsInput {
    /// Code name of the source used to fetch the news.
    pub source_name: String,
    /// Unique id of the article; never empty.
    pub article_id: String,
    /// Link to the original content.
    pub link: Option<String>,
    /// Title of the content.
    pub title: Option<String>,
    /// Short description or summary of the content.
    pub short_text: Option<String>,
    /// Full text or detailed content.
    pub long_text: Option<String>,
    /// Path of the representative image saved in file storage, or none when
    /// there was no image or its retrieval failed.
    pub image_path: Option<String>,
    /// When the news was published.
    pub published_time: Option<i64>,
}

impl InsertNewsInput {
    /// The store's idempotency key for this row.
    pub open spec fn dedup_key(self) -> (Seq<char>, Seq<char>) {
        (self.source_name@, self.article_id@)
    }
}

} // verus!
