//! The collection orchestrator: fans each provider's pagination out into
//! per-article processing, funnels the normalized rows through the batching
//! sink into the store, and reports how many articles were dispatched and how
//! many rows the store actually kept. Also the life of the fan-in channel,
//! whose drop-to-close discipline is what keeps the case from hanging.

use vstd::prelude::*;

use crate::div_ceil;
use crate::fetch::{PageEvent, page_event_wf, pages_prefix_concat, paginate_events,
    runs_through, spec_dispatched, spec_start, lemma_failure_keeps_dispatched};
use crate::news::{ARTICLE_ID_LENGTH, FetchNewsArticle, InsertNewsInput, NewsEntity, is_alphanumeric_char};
use crate::sink::{batches_concat, is_batching_of, lemma_batches_concat_head, plan_batches};
use crate::store::{NewsStore, inserted_count, kept_rows, keys_after, lemma_inserted_count_bounds,
    lemma_inserted_count_concat, lemma_kept_rows_concat, lemma_keys_after_concat};
use crate::task::make_insert_news_input;

verus! {

/// How many normalized rows the fan-in channel holds before producers block:
/// large enough to absorb bursts, small enough that a lagging store applies
/// backpressure upstream.
pub const CHANNEL_CAPACITY: usize = 100;

/// An article fit to enter the pipeline: a provider id, when claimed, is not
/// empty — it is about to become the store's idempotency key.
pub open spec fn article_wf(a: FetchNewsArticle) -> bool {
    a.id matches Some(id) ==> id@.len() > 0
}

/// Every article a page outcome carries is fit to enter the pipeline.
pub open spec fn event_articles_wf(e: PageEvent) -> bool {
    match e {
        PageEvent::Loaded(pd) => forall|j: int| 0 <= j < pd.articles@.len()
            ==> article_wf(#[trigger] pd.articles@[j]),
        PageEvent::Failed => true,
    }
}

/// One provider's part in a collection run: its configured page limit and the
/// outcomes its successive page loads come out as.
pub struct ProviderPlan {
    pub pages_num_limit: Option<u16>,
    pub events: Vec<PageEvent>,
}

impl ProviderPlan {
    /// A plan the pagination loop can be run on: the event count stays within
    /// the loop's page counter, pages are provider-sized, and every article
    /// is fit to enter the pipeline.
    pub open spec fn wf(self) -> bool {
        &&& self.events@.len() <= u16::MAX
        &&& forall|i: int| 0 <= i < self.events@.len() ==> page_event_wf(#[trigger] self.events@[i])
        &&& forall|i: int| 0 <= i < self.events@.len()
            ==> event_articles_wf(#[trigger] self.events@[i])
    }
}

/// What one provider dispatches under its plan.
pub open spec fn spec_provider_dispatch(p: ProviderPlan) -> Seq<FetchNewsArticle> {
    spec_dispatched(p.pages_num_limit, spec_start(), p.events@)
}

/// What a whole run dispatches: every provider's dispatch, providers in
/// configuration order.
pub open spec fn spec_all_dispatched(providers: Seq<ProviderPlan>) -> Seq<FetchNewsArticle>
    decreases providers.len(),
{
    if providers.len() == 0 {
        Seq::empty()
    } else {
        spec_provider_dispatch(providers[0]) + spec_all_dispatched(providers.skip(1))
    }
}

/// Runs every provider's pagination and returns all dispatched articles in
/// order, together with each provider's own dispatch count.
pub fn dispatch_all(providers: Vec<ProviderPlan>) -> (r: (Vec<FetchNewsArticle>, Vec<usize>))
    requires
        forall|i: int| 0 <= i < providers@.len() ==> (#[trigger] providers@[i]).wf(),
    ensures
        r.0@ == spec_all_dispatched(providers@),
        r.1@.len() == providers@.len(),
        forall|i: int| 0 <= i < providers@.len()
            ==> r.1@[i] == spec_provider_dispatch(#[trigger] providers@[i]).len(),
{
    let ghost all = providers@;
    let mut rest = providers;
    let mut articles: Vec<FetchNewsArticle> = Vec::new();
    let mut counts: Vec<usize> = Vec::new();
    while rest.len() > 0
        invariant
            rest@.len() <= all.len(),
            rest@ =~= all.skip(all.len() - rest@.len()),
            forall|i: int| 0 <= i < all.len() ==> (#[trigger] all[i]).wf(),
            counts@.len() == all.len() - rest@.len(),
            forall|i: int| 0 <= i < counts@.len()
                ==> counts@[i] == spec_provider_dispatch(#[trigger] all[i]).len(),
            spec_all_dispatched(all) == articles@ + spec_all_dispatched(rest@),
        decreases rest@.len(),
    {
        let ghost done = all.len() - rest@.len();
        let ghost pre_rest = rest@;
        let ghost pre_articles = articles@;
        let plan = rest.remove(0);
        proof {
            assert(plan == pre_rest[0]);
            assert(pre_rest[0] == all[done]);
            assert(rest@ =~= all.skip(done + 1));
            assert(spec_all_dispatched(pre_rest)
                == spec_provider_dispatch(plan) + spec_all_dispatched(rest@));
        }
        let ProviderPlan { pages_num_limit, events } = plan;
        let mut dispatched = paginate_events(pages_num_limit, events);
        let n = dispatched.len();
        articles.append(&mut dispatched);
        counts.push(n);
        proof {
            assert(articles@ == pre_articles + spec_provider_dispatch(plan));
            assert(pre_articles + spec_provider_dispatch(plan) + spec_all_dispatched(rest@)
                =~= pre_articles + (spec_provider_dispatch(plan) + spec_all_dispatched(rest@)));
        }
    }
    proof {
        assert(spec_all_dispatched(rest@) =~= Seq::<FetchNewsArticle>::empty());
        assert(articles@ + Seq::<FetchNewsArticle>::empty() =~= articles@);
    }
    (articles, counts)
}

/// Where provider `i`'s articles begin inside the run's dispatch: after
/// everything the providers before it dispatch.
pub open spec fn dispatch_offset(providers: Seq<ProviderPlan>, i: int) -> int
    decreases i,
{
    if i <= 0 {
        0
    } else {
        spec_provider_dispatch(providers[0]).len() + dispatch_offset(providers.skip(1), i - 1)
    }
}

/// Each provider's dispatch stands whole and in place inside the run's
/// dispatch, at its own offset.
pub proof fn lemma_dispatch_in_place(providers: Seq<ProviderPlan>, i: int)
    requires
        0 <= i < providers.len(),
    ensures
        0 <= dispatch_offset(providers, i),
        dispatch_offset(providers, i) + spec_provider_dispatch(providers[i]).len()
            <= spec_all_dispatched(providers).len(),
        spec_all_dispatched(providers).subrange(
            dispatch_offset(providers, i),
            dispatch_offset(providers, i) + spec_provider_dispatch(providers[i]).len() as int,
        ) == spec_provider_dispatch(providers[i]),
    decreases i,
{
    let head = spec_provider_dispatch(providers[0]);
    let tail = providers.skip(1);
    assert(spec_all_dispatched(providers) == head + spec_all_dispatched(tail));
    if i == 0 {
        assert(spec_all_dispatched(providers).subrange(0, head.len() as int) =~= head);
    } else {
        lemma_dispatch_in_place(tail, i - 1);
        assert(tail[i - 1] == providers[i]);
        let off = dispatch_offset(tail, i - 1);
        let len = spec_provider_dispatch(providers[i]).len() as int;
        assert(dispatch_offset(providers, i) == head.len() + off);
        assert(spec_all_dispatched(providers).subrange(head.len() + off, head.len() + off + len)
            =~= spec_all_dispatched(tail).subrange(off, off + len));
    }
}

/// Partial failure containment at the whole run: when provider `i` runs
/// through `k` page loads and the next one fails, the articles of those `k`
/// pages still stand, whole and in place, inside everything the run
/// dispatches — so they are counted in the dispatch total and each yields its
/// row offered to the store.
pub proof fn lemma_failed_provider_articles_still_dispatched(providers: Seq<ProviderPlan>, i: int, k: int)
    requires
        0 <= i < providers.len(),
        0 <= k < providers[i].events@.len(),
        runs_through(providers[i].pages_num_limit, spec_start(), providers[i].events@, k),
        providers[i].events@[k] is Failed,
    ensures
        0 <= dispatch_offset(providers, i),
        dispatch_offset(providers, i) + pages_prefix_concat(providers[i].events@, k).len()
            <= spec_all_dispatched(providers).len(),
        spec_all_dispatched(providers).subrange(
            dispatch_offset(providers, i),
            dispatch_offset(providers, i) + pages_prefix_concat(providers[i].events@, k).len() as int,
        ) == pages_prefix_concat(providers[i].events@, k),
{
    lemma_failure_keeps_dispatched(providers[i].pages_num_limit, spec_start(), providers[i].events@, k);
    lemma_dispatch_in_place(providers, i);
}

/// Partial failure containment across providers: when provider `i` runs
/// through `k` page loads and the next one fails, the articles of those `k`
/// pages are dispatched all the same; and against any other run `b` that
/// differs only in provider `i`'s plan, every other provider's dispatch is
/// identical.
pub proof fn lemma_partial_failure_containment(a: Seq<ProviderPlan>, b: Seq<ProviderPlan>, i: int, k: int)
    requires
        a.len() == b.len(),
        0 <= i < a.len(),
        forall|j: int| 0 <= j < a.len() && j != i ==> a[j] == b[j],
        0 <= k < a[i].events@.len(),
        runs_through(a[i].pages_num_limit, spec_start(), a[i].events@, k),
        a[i].events@[k] is Failed,
    ensures
        spec_provider_dispatch(a[i]) == pages_prefix_concat(a[i].events@, k),
        forall|j: int| 0 <= j < a.len() && j != i
            ==> spec_provider_dispatch(#[trigger] a[j]) == spec_provider_dispatch(b[j]),
{
    lemma_failure_keeps_dispatched(a[i].pages_num_limit, spec_start(), a[i].events@, k);
}

/// The life of the fan-in channel: one sender handle per live task, plus the
/// orchestrator's own. The sink's drain loop ends exactly when the channel
/// closes, and the channel closes exactly when no sender is left.
pub struct ChannelLife {
    tasks_live: usize,
    orchestrator_holds: bool,
}

impl ChannelLife {
    /// Sender handles still alive.
    pub closed spec fn senders(self) -> int {
        self.tasks_live + (if self.orchestrator_holds { 1int } else { 0int })
    }

    /// Tasks dispatched and not yet finished.
    pub closed spec fn tasks_live(self) -> int {
        self.tasks_live as int
    }

    /// Whether the orchestrator still holds its own sender.
    pub closed spec fn orchestrator_holds(self) -> bool {
        self.orchestrator_holds
    }

    /// The channel has closed: no sender is left, so the sink drains what
    /// remains and returns.
    pub open spec fn spec_closed(self) -> bool {
        self.senders() == 0
    }

    /// A fresh channel: the orchestrator holds the only sender.
    pub fn new() -> (r: ChannelLife)
        ensures
            r.tasks_live() == 0,
            r.orchestrator_holds(),
    {
        ChannelLife { tasks_live: 0, orchestrator_holds: true }
    }

    /// One task is spawned with its own clone of the sender.
    pub fn dispatch_task(&mut self)
        requires
            old(self).tasks_live() < usize::MAX,
        ensures
            final(self).tasks_live() == old(self).tasks_live() + 1,
            final(self).orchestrator_holds() == old(self).orchestrator_holds(),
    {
        self.tasks_live = self.tasks_live + 1;
    }

    /// One task ends — success or failure — and its sender clone goes away
    /// with it.
    pub fn finish_task(&mut self)
        requires
            old(self).tasks_live() > 0,
        ensures
            final(self).tasks_live() == old(self).tasks_live() - 1,
            final(self).orchestrator_holds() == old(self).orchestrator_holds(),
    {
        self.tasks_live = self.tasks_live - 1;
    }

    /// The ordering-critical step: the orchestrator drops its own sender
    /// before awaiting the sink.
    pub fn drop_orchestrator_sender(&mut self)
        requires
            old(self).orchestrator_holds(),
        ensures
            final(self).tasks_live() == old(self).tasks_live(),
            !final(self).orchestrator_holds(),
    {
        self.orchestrator_holds = false;
    }

    /// Whether the sink observes closure.
    pub fn is_closed(&self) -> (r: bool)
        ensures
            r == self.spec_closed(),
    {
        self.tasks_live == 0 && !self.orchestrator_holds
    }
}

/// No deadlock, and why the drop comes first: once the orchestrator has
/// dropped its sender, the channel closes exactly when every dispatched task
/// has finished — so a case whose tasks all resolve completes, for any number
/// of dispatched tasks including none. Had the orchestrator kept its sender,
/// the channel could never close, however many tasks finished.
pub proof fn lemma_drop_to_close(c: ChannelLife)
    ensures
        c.orchestrator_holds() ==> !c.spec_closed(),
        !c.orchestrator_holds() ==> (c.spec_closed() <==> c.tasks_live() == 0),
{
}

/// Feeds a record stream through the batching sink into the store, one
/// conflict-ignore insert per batch — so the store receives exactly
/// `ceil(records / batch size)` insert calls — and returns how many rows the
/// store kept: exactly one per dedup key not seen before.
pub fn drain_to_store(records: Vec<InsertNewsInput>, insert_batch_size: usize, store: &mut NewsStore) -> (inserted: usize)
    requires
        insert_batch_size >= 1,
        old(store).rows_view().len() + records@.len() <= i32::MAX,
    ensures
        inserted == inserted_count(old(store).keys(), records@),
        final(store).keys() == keys_after(old(store).keys(), records@),
        final(store).rows_view() == old(store).rows_view() + kept_rows(old(store).keys(), records@),
        final(store).rows_view().len() <= old(store).rows_view().len() + records@.len(),
        final(store).inserts_received() == old(store).inserts_received()
            + div_ceil(records@.len() as int, insert_batch_size as int),
        is_batching_of(
            final(store).batches_received().skip(old(store).batches_received().len() as int),
            records@,
            insert_batch_size as int,
        ),
{
    let ghost all = records@;
    let ghost ks0 = store.keys();
    let ghost received0 = store.batches_received();
    let ghost rows0_seq = store.rows_view();
    let ghost rows0 = store.rows_view().len() as int;
    let mut batches = plan_batches(records, insert_batch_size);
    let ghost batches0 = batches@.map_values(|v: Vec<InsertNewsInput>| v@);
    let mut inserted: usize = 0;
    let ghost consumed: Seq<InsertNewsInput> = Seq::empty();
    proof {
        assert(consumed + batches_concat(batches0) =~= all);
        assert(rows0_seq + kept_rows(ks0, consumed) =~= rows0_seq);
    }
    while batches.len() > 0
        invariant
            consumed + batches_concat(batches@.map_values(|v: Vec<InsertNewsInput>| v@)) =~= all,
            consumed.len() <= all.len(),
            store.keys() == keys_after(ks0, consumed),
            store.rows_view() =~= rows0_seq + kept_rows(ks0, consumed),
            inserted == inserted_count(ks0, consumed),
            store.rows_view().len() <= rows0 + consumed.len(),
            batches@.len() <= batches0.len(),
            batches@.map_values(|v: Vec<InsertNewsInput>| v@)
                =~= batches0.skip(batches0.len() - batches@.len()),
            store.batches_received() =~= received0 + batches0.take(batches0.len() - batches@.len()),
            rows0 + all.len() <= i32::MAX,
            all.len() <= usize::MAX,
        decreases batches@.len(),
    {
        let ghost pre_map = batches@.map_values(|v: Vec<InsertNewsInput>| v@);
        let ghost pre_consumed = consumed;
        let ghost done_batches = batches0.len() - pre_map.len();
        let batch = batches.remove(0);
        proof {
            assert(batch@ == pre_map[0]);
            assert(pre_map[0] == batches0.skip(done_batches)[0]);
            assert(batches0.skip(done_batches)[0] == batches0[done_batches]);
            assert(batches0.take(done_batches + 1)
                =~= batches0.take(done_batches).push(batches0[done_batches]));
            lemma_batches_concat_head(pre_map);
            assert(batches@.map_values(|v: Vec<InsertNewsInput>| v@) =~= pre_map.skip(1));
            assert(batch@ == pre_map[0]);
            assert(pre_consumed + (batch@ + batches_concat(pre_map.skip(1))) =~= all);
            assert((pre_consumed + batch@) + batches_concat(pre_map.skip(1)) =~= all);
            assert((pre_consumed + batch@).len() <= all.len()) by {
                assert(batches_concat(pre_map.skip(1)).len() >= 0);
            }
            lemma_keys_after_concat(ks0, pre_consumed, batch@);
            lemma_inserted_count_concat(ks0, pre_consumed, batch@);
            lemma_kept_rows_concat(ks0, pre_consumed, batch@);
            lemma_inserted_count_bounds(keys_after(ks0, pre_consumed), batch@);
            lemma_inserted_count_bounds(ks0, pre_consumed);
        }
        let ids = store.insert_news(batch);
        inserted = inserted + ids.len();
        proof {
            consumed = pre_consumed + batch@;
            assert(store.rows_view()
                =~= (rows0_seq + kept_rows(ks0, pre_consumed))
                    + kept_rows(keys_after(ks0, pre_consumed), batch@));
            assert(store.rows_view() =~= rows0_seq + kept_rows(ks0, consumed));
            assert(store.batches_received()
                =~= received0 + batches0.take(done_batches + 1));
        }
    }
    proof {
        assert(batches_concat(batches@.map_values(|v: Vec<InsertNewsInput>| v@))
            =~= Seq::<InsertNewsInput>::empty());
        assert(consumed =~= all);
        assert(batches0.take(batches0.len() as int) =~= batches0);
        assert(store.batches_received().skip(received0.len() as int) =~= batches0);
    }
    inserted
}

/// Where a dispatched article's image work ended up: the resolved storage
/// path by dispatch position, or none for positions past the end — an
/// article whose image was missing, unfetchable, or unuploadable.
pub open spec fn spec_image_path_at(paths: Seq<Option<String>>, i: int) -> Option<String> {
    if 0 <= i < paths.len() {
        paths[i]
    } else {
        None
    }
}

/// How one dispatched article maps to its normalized row: every field is
/// carried over; the article id is the provider's own, or — when the
/// provider claimed none — a freshly generated id of fixed length, never
/// empty either way.
pub open spec fn record_of_article(a: FetchNewsArticle, image_path: Option<String>, r: InsertNewsInput) -> bool {
    &&& r.source_name == a.source_name
    &&& (match a.id {
        Some(id) => r.article_id == id,
        None => r.article_id@.len() == ARTICLE_ID_LENGTH
            && forall|i: int| 0 <= i < r.article_id@.len()
                ==> is_alphanumeric_char(#[trigger] r.article_id@[i]),
    })
    &&& r.article_id@.len() > 0
    &&& r.link == a.link
    &&& r.title == a.title
    &&& r.short_text == a.short_text
    &&& r.long_text == a.long_text
    &&& r.image_path == image_path
    &&& r.published_time == a.published_time
}

/// Turns dispatched articles into normalized rows, pairing each by position
/// with its resolved image path.
fn records_of_articles(articles: Vec<FetchNewsArticle>, image_paths: Vec<Option<String>>) -> (records: Vec<InsertNewsInput>)
    requires
        forall|i: int| 0 <= i < articles@.len() ==> article_wf(#[trigger] articles@[i]),
    ensures
        records@.len() == articles@.len(),
        forall|i: int| 0 <= i < articles@.len()
            ==> record_of_article(articles@[i], spec_image_path_at(image_paths@, i), #[trigger] records@[i]),
{
    let ghost all = articles@;
    let ghost paths0 = image_paths@;
    let mut rest = articles;
    let mut rest_paths = image_paths;
    let mut records: Vec<InsertNewsInput> = Vec::new();
    while rest.len() > 0
        invariant
            rest@.len() <= all.len(),
            rest@ =~= all.skip(all.len() - rest@.len()),
            forall|i: int| 0 <= i < all.len() ==> article_wf(#[trigger] all[i]),
            records@.len() == all.len() - rest@.len(),
            forall|i: int| 0 <= i < records@.len()
                ==> record_of_article(all[i], spec_image_path_at(paths0, i), #[trigger] records@[i]),
            records@.len() <= paths0.len() ==> rest_paths@ =~= paths0.skip(records@.len() as int),
            records@.len() > paths0.len() ==> rest_paths@.len() == 0,
        decreases rest@.len(),
    {
        let ghost done = all.len() - rest@.len();
        let ghost pre_rest = rest@;
        let article = rest.remove(0);
        proof {
            assert(article == pre_rest[0]);
            assert(pre_rest[0] == all[done]);
            assert(rest@ =~= all.skip(done + 1));
        }
        let image_path: Option<String> = if rest_paths.len() > 0 {
            let ghost pre_paths = rest_paths@;
            let p = rest_paths.remove(0);
            proof {
                assert(p == pre_paths[0]);
                assert(pre_paths[0] == paths0[done]);
                assert(rest_paths@ =~= paths0.skip(done + 1));
            }
            p
        } else {
            None
        };
        proof {
            assert(image_path == spec_image_path_at(paths0, done));
        }
        let news = NewsEntity::new(article.id);
        proof {
            assert(article_wf(all[done]));
        }
        let record = make_insert_news_input(
            FetchNewsArticle { id: None, ..article },
            news.article_id,
            image_path,
        );
        records.push(record);
    }
    records
}

/// One collection run's knobs: how many per-article tasks may run at once,
/// and how many rows one store insert carries.
pub struct CollectNewsCase {
    pub task_permits_num: usize,
    pub insert_batch_size: usize,
}

impl CollectNewsCase {
    pub fn new(task_permits_num: usize, insert_batch_size: usize) -> (r: CollectNewsCase)
        ensures
            r.task_permits_num == task_permits_num,
            r.insert_batch_size == insert_batch_size,
    {
        CollectNewsCase { task_permits_num, insert_batch_size }
    }

    /// One full collection across all configured providers, against the store
    /// model: paginate each provider, process every dispatched article, and
    /// drain the rows through the sink into the store in batches of the
    /// configured size. Returns the pair of totals
    /// `(total_dispatched, total_inserted)`: everything the providers
    /// dispatched, and — whatever ids were generated along the way — the
    /// store kept exactly one row per dedup key it had not seen, the second
    /// total counts those rows, and the batches the store received are
    /// exactly a batching of this run's records: one call per batch, each of
    /// the configured size but a final remainder.
    pub fn execute_model(&self, providers: Vec<ProviderPlan>, image_paths: Vec<Option<String>>, store: &mut NewsStore) -> (totals: (usize, usize))
        requires
            self.insert_batch_size >= 1,
            forall|i: int| 0 <= i < providers@.len() ==> (#[trigger] providers@[i]).wf(),
            forall|i: int| 0 <= i < spec_all_dispatched(providers@).len()
                ==> article_wf(#[trigger] spec_all_dispatched(providers@)[i]),
            old(store).rows_view().len() + spec_all_dispatched(providers@).len() <= i32::MAX,
        ensures
            totals.0 == spec_all_dispatched(providers@).len(),
            totals.1 <= totals.0,
            final(store).inserts_received() == old(store).inserts_received()
                + div_ceil(spec_all_dispatched(providers@).len() as int, self.insert_batch_size as int),
            exists|records: Seq<InsertNewsInput>| {
                &&& records.len() == spec_all_dispatched(providers@).len()
                &&& (forall|i: int| 0 <= i < records.len() ==> record_of_article(
                    spec_all_dispatched(providers@)[i],
                    spec_image_path_at(image_paths@, i),
                    #[trigger] records[i],
                ))
                &&& totals.1 == inserted_count(old(store).keys(), records)
                &&& final(store).keys() == keys_after(old(store).keys(), records)
                &&& final(store).rows_view() == old(store).rows_view() + kept_rows(old(store).keys(), records)
                &&& is_batching_of(
                    final(store).batches_received().skip(old(store).batches_received().len() as int),
                    records,
                    self.insert_batch_size as int,
                )
            },
    {
        let (articles, _counts) = dispatch_all(providers);
        let total_dispatched = articles.len();
        let records = records_of_articles(articles, image_paths);
        let ghost witness = records@;
        let inserted = drain_to_store(records, self.insert_batch_size, store);
        proof {
            assert(witness.len() == spec_all_dispatched(providers@).len());
            lemma_inserted_count_bounds(old(store).keys(), witness);
        }
        (total_dispatched, inserted)
    }
}

} // verus!
