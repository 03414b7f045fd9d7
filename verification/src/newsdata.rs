//! The reference provider adapter. The wire format of the provider's HTTP
//! API stays outside the core: this module takes the page's already-parsed
//! fields and turns them into domain articles, resolving each result's
//! published time from the provider's local timestamp and time-zone name.

use vstd::prelude::*;

use crate::fetch::{PageData, PageEvent, page_event_wf};
use crate::news::FetchNewsArticle;
use crate::store::str_eq;

verus! {

/// The reference provider's client: its API key and the configured page
/// limit, which bounds how many pages one fetch may consume.
pub struct NewsdataClient {
    pub api_key: String,
    pub pages_num_limit: Option<u16>,
}

impl NewsdataClient {
    pub fn new(api_key: String, pages_num_limit: Option<u16>) -> (r: NewsdataClient)
        ensures
            r.api_key == api_key,
            r.pages_num_limit == pages_num_limit,
    {
        NewsdataClient { api_key, pages_num_limit }
    }
}

/// One parsed result of the provider's page payload.
pub struct NewsdataResult {
    pub article_id: String,
    pub link: Option<String>,
    pub title: Option<String>,
    pub description: Option<String>,
    pub image_url: Option<String>,
    pub pub_date: Option<String>,
    pub pub_date_tz: Option<String>,
}

/// A provider timestamp could not be read; the whole page is abandoned.
#[derive(Debug)]
pub struct PublishedTimeError {}

/// What resolving a provider's local timestamp against its time-zone name
/// yields: nothing when either string cannot be read, otherwise the instant
/// in epoch milliseconds — or no instant, when the local time is ambiguous
/// or skipped in that zone. A function of the two strings alone.
pub uninterp spec fn published_epoch_of(pub_date: Seq<char>, pub_date_tz: Seq<char>) -> Option<Option<i64>>;

/// Relies on chrono and chrono-tz: `Tz::from_str` reads the zone name,
/// `NaiveDateTime::parse_from_str` reads the timestamp as
/// `%Y-%m-%d %H:%M:%S`, and `TimeZone::from_local_datetime` resolves it in
/// that zone, yielding an instant only when the local time is unambiguous.
/// All three depend on their string arguments alone.
#[verifier::external_body]
fn resolve_published_time(pub_date: &str, pub_date_tz: &str) -> (r: Option<Option<i64>>)
    ensures
        r == published_epoch_of(pub_date@, pub_date_tz@),
{
    let timezone: chrono_tz::Tz = match pub_date_tz.parse() {
        Ok(timezone) => timezone,
        Err(_) => return None,
    };
    let naive = match chrono::NaiveDateTime::parse_from_str(pub_date, "%Y-%m-%d %H:%M:%S") {
        Ok(naive) => naive,
        Err(_) => return None,
    };
    match naive.and_local_timezone(timezone).single() {
        Some(resolved) => Some(Some(resolved.to_utc().timestamp_millis())),
        None => Some(None),
    }
}

/// The published time a result resolves to: only a result carrying both a
/// timestamp and a zone is resolved at all; resolution may fail (abandoning
/// the page) or yield no instant.
pub open spec fn spec_published_of(r: NewsdataResult) -> Option<Option<i64>> {
    match (r.pub_date, r.pub_date_tz) {
        (Some(date), Some(tz)) => published_epoch_of(date@, tz@),
        _ => Some(None),
    }
}

/// How a provider result maps into a domain article: the source is the
/// provider's code name, an empty provider id counts as absent, the
/// description becomes the short text, no long text is available, and the
/// published time is the resolved instant.
pub open spec fn article_of_result(r: NewsdataResult, a: FetchNewsArticle) -> bool {
    &&& a.source_name@ == "NewsData"@
    &&& a.id == (if r.article_id@.len() == 0 { None::<String> } else { Some(r.article_id) })
    &&& a.link == r.link
    &&& a.title == r.title
    &&& a.short_text == r.description
    &&& a.long_text is None
    &&& a.image_url == r.image_url
    &&& Some(a.published_time) == spec_published_of(r)
}

/// Turns one provider result into a domain article; fails exactly when the
/// result carries a timestamp that cannot be read.
pub fn build_article(result: NewsdataResult) -> (r: Result<FetchNewsArticle, PublishedTimeError>)
    ensures
        r is Err <==> spec_published_of(result) is None,
        r matches Ok(a) ==> article_of_result(result, a),
{
    let ghost result0 = result;
    let NewsdataResult { article_id, link, title, description, image_url, pub_date, pub_date_tz } = result;
    let published_time: Option<i64> = match (pub_date, pub_date_tz) {
        (Some(date), Some(tz)) => {
            match resolve_published_time(date.as_str(), tz.as_str()) {
                Some(published) => published,
                None => {
                    return Err(PublishedTimeError {});
                }
            }
        }
        _ => None,
    };
    let id_absent = str_eq(article_id.as_str(), "");
    proof {
        reveal_strlit("");
        if article_id@.len() == 0 {
            assert(article_id@ =~= ""@);
        }
    }
    let id = if id_absent { None } else { Some(article_id) };
    Ok(FetchNewsArticle {
        source_name: "NewsData".to_owned(),
        id,
        link,
        title,
        short_text: description,
        long_text: None,
        image_url,
        published_time,
    })
}

/// Turns one loaded page's parsed fields into page data for the pagination
/// loop: every result becomes an article, in page order, and one unreadable
/// timestamp abandons the page.
pub fn page_from_results(total_results: u16, results: Vec<NewsdataResult>, next_page: Option<String>) -> (r: Result<PageData, PublishedTimeError>)
    requires
        results@.len() <= u16::MAX,
    ensures
        r matches Ok(pd) ==> {
            &&& pd.total_results == total_results
            &&& pd.next_page == next_page
            &&& pd.articles@.len() == results@.len()
            &&& forall|i: int| 0 <= i < results@.len()
                ==> article_of_result(#[trigger] results@[i], pd.articles@[i])
            &&& page_event_wf(PageEvent::Loaded(pd))
        },
        r is Err <==> exists|i: int| 0 <= i < results@.len()
            && spec_published_of(#[trigger] results@[i]) is None,
{
    let ghost all = results@;
    let mut rest = results;
    let mut articles: Vec<FetchNewsArticle> = Vec::new();
    while rest.len() > 0
        invariant
            all == results@,
            rest@.len() <= all.len(),
            rest@ =~= all.skip(all.len() - rest@.len()),
            articles@.len() == all.len() - rest@.len(),
            forall|i: int| 0 <= i < articles@.len()
                ==> article_of_result(#[trigger] all[i], articles@[i]),
            forall|i: int| 0 <= i < articles@.len()
                ==> spec_published_of(#[trigger] all[i]) is Some,
        decreases rest@.len(),
    {
        let ghost done = all.len() - rest@.len();
        let ghost pre_rest = rest@;
        let result = rest.remove(0);
        proof {
            assert(result == pre_rest[0]);
            assert(pre_rest[0] == all[done]);
            assert(rest@ =~= all.skip(done + 1));
        }
        match build_article(result) {
            Ok(article) => {
                articles.push(article);
            }
            Err(e) => {
                proof {
                    assert(0 <= done < results@.len());
                    assert(spec_published_of(results@[done]) is None);
                    assert(exists|i: int| 0 <= i < results@.len()
                        && spec_published_of(#[trigger] results@[i]) is None);
                }
                return Err(e);
            }
        }
    }
    Ok(PageData { total_results, articles, next_page })
}

} // verus!
