//! The fetch port's pagination policy. A provider walks its result set page
//! by page, keeps a remaining-count estimate, dispatches every article it
//! sees as soon as it sees it, and stops on a configured page limit, an
//! exhausted estimate, a missing next-page cursor, or a page error — without
//! discarding what it already dispatched.

use vstd::prelude::*;

use crate::news::FetchNewsArticle;

verus! {

/// One successfully loaded and parsed page.
pub struct PageData {
    /// The provider's reported total number of results.
    pub total_results: u16,
    /// The articles of this page, in page order.
    pub articles: Vec<FetchNewsArticle>,
    /// The cursor of the next page, when the provider offers one.
    pub next_page: Option<String>,
}

/// The outcome of one page load.
pub enum PageEvent {
    /// The page arrived and parsed.
    Loaded(PageData),
    /// The load or the parse failed; pagination stops here.
    Failed,
}

/// A page never yields more articles than the provider's 16-bit total could
/// ever promise.
pub open spec fn page_event_wf(e: PageEvent) -> bool {
    match e {
        PageEvent::Loaded(pd) => pd.articles@.len() <= u16::MAX,
        PageEvent::Failed => true,
    }
}

/// The pagination loop's state: the remaining-count estimate (unset until
/// the first page reports a total), the cursor for the next request, and how
/// many pages were consumed.
pub struct Pagination {
    /// Estimated results still outstanding; seeded from the first page's
    /// reported total, then decremented by each page's yield.
    pub remaining_results_num: Option<i64>,
    /// Cursor to request the next page with; none for the first page.
    pub page: Option<String>,
    /// Pages consumed so far.
    pub page_index: u16,
}

impl Pagination {
    /// Whether the loop stops before loading another page: a configured page
    /// limit is reached, or — with no limit — the remaining-count estimate
    /// is exhausted.
    pub open spec fn spec_should_stop(self, pages_num_limit: Option<u16>) -> bool {
        match pages_num_limit {
            Some(limit) => self.page_index >= limit,
            None => match self.remaining_results_num {
                Some(remaining) => remaining <= 0,
                None => false,
            },
        }
    }

    /// The state after consuming a loaded page: the estimate is seeded from
    /// the reported total when still unset and pays out the page's yield;
    /// the cursor advances and the page count grows.
    pub open spec fn spec_apply(self, total_results: u16, articles_len: int, next_page: Option<String>) -> Pagination {
        Pagination {
            remaining_results_num: Some((match self.remaining_results_num {
                Some(remaining) => remaining as int,
                None => total_results as int,
            } - articles_len) as i64),
            page: next_page,
            page_index: (self.page_index + 1) as u16,
        }
    }

    pub fn start() -> (r: Pagination)
        ensures
            r == (Pagination { remaining_results_num: None::<i64>, page: None::<String>, page_index: 0u16 }),
    {
        Pagination { remaining_results_num: None, page: None, page_index: 0 }
    }

    pub fn should_stop(&self, pages_num_limit: Option<u16>) -> (r: bool)
        ensures
            r == self.spec_should_stop(pages_num_limit),
    {
        match pages_num_limit {
            Some(limit) => self.page_index >= limit,
            None => match &self.remaining_results_num {
                Some(remaining) => *remaining <= 0,
                None => false,
            },
        }
    }

    /// Consumes one loaded page: updates the estimate and, when the provider
    /// offers a next cursor, advances to it; returns whether the loop goes
    /// on. Articles already handed out stay valid either way.
    pub fn apply_page(&mut self, total_results: u16, articles_len: usize, next_page: Option<String>) -> (cont: bool)
        requires
            articles_len <= u16::MAX,
            old(self).page_index < u16::MAX,
            old(self).remaining_results_num matches Some(n) ==> i64::MIN + u16::MAX < n,
        ensures
            cont == (next_page is Some),
            cont ==> *final(self) == old(self).spec_apply(total_results, articles_len as int, next_page),
            !cont ==> {
                &&& final(self).remaining_results_num
                    == old(self).spec_apply(total_results, articles_len as int, next_page).remaining_results_num
                &&& final(self).page == old(self).page
                &&& final(self).page_index == old(self).page_index
            },
    {
        let base: i64 = match self.remaining_results_num {
            Some(remaining) => remaining,
            None => total_results as i64,
        };
        self.remaining_results_num = Some(base - articles_len as i64);
        match next_page {
            Some(next) => {
                self.page = Some(next);
                self.page_index = self.page_index + 1;
                true
            }
            None => false,
        }
    }
}

/// Everything the pagination loop, started in state `st` with the given page
/// limit, dispatches when the successive page loads come out as `events`:
/// each loaded page's articles in order, up to the first stop, missing
/// cursor, or failure.
pub open spec fn spec_dispatched(pages_num_limit: Option<u16>, st: Pagination, events: Seq<PageEvent>) -> Seq<FetchNewsArticle>
    decreases events.len(),
{
    if st.spec_should_stop(pages_num_limit) || events.len() == 0 {
        Seq::empty()
    } else {
        match events[0] {
            PageEvent::Failed => Seq::empty(),
            PageEvent::Loaded(pd) => pd.articles@ + (match pd.next_page {
                Some(_) => spec_dispatched(
                    pages_num_limit,
                    st.spec_apply(pd.total_results, pd.articles@.len() as int, pd.next_page),
                    events.skip(1),
                ),
                None => Seq::empty(),
            }),
        }
    }
}

/// The pagination's starting state.
pub open spec fn spec_start() -> Pagination {
    Pagination { remaining_results_num: None, page: None, page_index: 0 }
}

/// What one page outcome yields: a loaded page's articles, a failed load
/// nothing.
pub open spec fn event_articles(e: PageEvent) -> Seq<FetchNewsArticle> {
    match e {
        PageEvent::Loaded(pd) => pd.articles@,
        PageEvent::Failed => Seq::empty(),
    }
}

/// The articles of the first `k` page outcomes, laid end to end.
pub open spec fn pages_prefix_concat(events: Seq<PageEvent>, k: int) -> Seq<FetchNewsArticle>
    decreases events.len(),
{
    if k <= 0 || events.len() == 0 {
        Seq::empty()
    } else {
        event_articles(events[0]) + pages_prefix_concat(events.skip(1), k - 1)
    }
}

/// Whether the pagination loop, started in state `st`, consumes at least `k`
/// page outcomes: no stop condition, missing cursor, or failure cuts it short
/// before then.
pub open spec fn runs_through(pages_num_limit: Option<u16>, st: Pagination, events: Seq<PageEvent>, k: int) -> bool
    decreases k,
{
    if k <= 0 {
        true
    } else {
        &&& !st.spec_should_stop(pages_num_limit)
        &&& events.len() > 0
        &&& events[0] matches PageEvent::Loaded(pd)
            && pd.next_page is Some
            && runs_through(
                pages_num_limit,
                st.spec_apply(pd.total_results, pd.articles@.len() as int, pd.next_page),
                events.skip(1),
                k - 1,
            )
    }
}

/// Partial failure containment: when the pagination loop reaches its `k`th
/// page load and that load fails, what it dispatches is exactly the articles
/// of the `k` pages already loaded — the failure rolls nothing back.
pub proof fn lemma_failure_keeps_dispatched(pages_num_limit: Option<u16>, st: Pagination, events: Seq<PageEvent>, k: int)
    requires
        0 <= k < events.len(),
        runs_through(pages_num_limit, st, events, k),
        events[k] is Failed,
    ensures
        spec_dispatched(pages_num_limit, st, events) == pages_prefix_concat(events, k),
    decreases k,
{
    if k == 0 {
        if st.spec_should_stop(pages_num_limit) {
            assert(spec_dispatched(pages_num_limit, st, events) =~= Seq::<FetchNewsArticle>::empty());
        } else {
            assert(spec_dispatched(pages_num_limit, st, events) =~= Seq::<FetchNewsArticle>::empty());
        }
        assert(pages_prefix_concat(events, 0) =~= Seq::<FetchNewsArticle>::empty());
    } else {
        let pd = events[0]->Loaded_0;
        let st1 = st.spec_apply(pd.total_results, pd.articles@.len() as int, pd.next_page);
        assert(events.skip(1)[k - 1] == events[k]);
        lemma_failure_keeps_dispatched(pages_num_limit, st1, events.skip(1), k - 1);
        assert(spec_dispatched(pages_num_limit, st, events)
            == pd.articles@ + spec_dispatched(pages_num_limit, st1, events.skip(1)));
        assert(pages_prefix_concat(events, k)
            == event_articles(events[0]) + pages_prefix_concat(events.skip(1), k - 1));
    }
}

/// Replays the pagination policy over a recorded sequence of page outcomes
/// and returns every article it would have dispatched, in dispatch order.
pub fn paginate_events(pages_num_limit: Option<u16>, events: Vec<PageEvent>) -> (dispatched: Vec<FetchNewsArticle>)
    requires
        events@.len() <= u16::MAX,
        forall|i: int| 0 <= i < events@.len() ==> page_event_wf(#[trigger] events@[i]),
    ensures
        dispatched@ == spec_dispatched(pages_num_limit, spec_start(), events@),
{
    let ghost all = events@;
    let mut rest = events;
    let mut st = Pagination::start();
    let mut dispatched: Vec<FetchNewsArticle> = Vec::new();
    loop
        invariant_except_break
            rest@.len() <= all.len(),
            rest@ =~= all.skip(all.len() - rest@.len()),
            forall|i: int| 0 <= i < all.len() ==> page_event_wf(#[trigger] all[i]),
            all.len() <= u16::MAX,
            st.page_index <= all.len() - rest@.len(),
            st.remaining_results_num matches Some(n)
                ==> -(st.page_index as int) * (u16::MAX as int) - (u16::MAX as int) <= n <= u16::MAX,
            spec_dispatched(pages_num_limit, spec_start(), all)
                == dispatched@ + spec_dispatched(pages_num_limit, st, rest@),
        ensures
            dispatched@ == spec_dispatched(pages_num_limit, spec_start(), all),
        decreases rest@.len(),
    {
        if st.should_stop(pages_num_limit) {
            proof {
                assert(dispatched@ + spec_dispatched(pages_num_limit, st, rest@) =~= dispatched@);
            }
            break;
        }
        if rest.len() == 0 {
            proof {
                assert(dispatched@ + spec_dispatched(pages_num_limit, st, rest@) =~= dispatched@);
            }
            break;
        }
        let ghost pre_rest = rest@;
        let ghost pre_st = st;
        let ghost pre_dispatched = dispatched@;
        let event = rest.remove(0);
        proof {
            assert(event == pre_rest[0]);
            assert(rest@ =~= pre_rest.skip(1));
            assert(page_event_wf(all[all.len() - pre_rest.len()]));
        }
        match event {
            PageEvent::Failed => {
                proof {
                    assert(spec_dispatched(pages_num_limit, pre_st, pre_rest)
                        =~= Seq::<FetchNewsArticle>::empty());
                    assert(pre_dispatched + Seq::<FetchNewsArticle>::empty() =~= pre_dispatched);
                }
                break;
            }
            PageEvent::Loaded(pd) => {
                let ghost pd0 = pd;
                proof {
                    assert(spec_dispatched(pages_num_limit, pre_st, pre_rest)
                        == pd0.articles@ + (match pd0.next_page {
                            Some(_) => spec_dispatched(
                                pages_num_limit,
                                pre_st.spec_apply(pd0.total_results, pd0.articles@.len() as int, pd0.next_page),
                                pre_rest.skip(1),
                            ),
                            None => Seq::<FetchNewsArticle>::empty(),
                        }));
                }
                let PageData { total_results, mut articles, next_page } = pd;
                let articles_len = articles.len();
                dispatched.append(&mut articles);
                proof {
                    assert(dispatched@ == pre_dispatched + pd0.articles@);
                }
                let cont = st.apply_page(total_results, articles_len, next_page);
                if cont {
                    proof {
                        assert(st == pre_st.spec_apply(pd0.total_results, pd0.articles@.len() as int, pd0.next_page));
                        assert((pre_dispatched + pd0.articles@)
                            + spec_dispatched(pages_num_limit, st, pre_rest.skip(1))
                            =~= pre_dispatched + (pd0.articles@
                                + spec_dispatched(pages_num_limit, st, pre_rest.skip(1))));
                        assert(st.page_index == pre_st.page_index + 1);
                        assert(st.remaining_results_num matches Some(n)
                            ==> -(st.page_index as int) * (u16::MAX as int) - (u16::MAX as int) <= n <= u16::MAX) by {
                            let pre_n = match pre_st.remaining_results_num {
                                Some(m) => m as int,
                                None => pd0.total_results as int,
                            };
                            assert(-(pre_st.page_index as int) * (u16::MAX as int) - (u16::MAX as int) <= pre_n <= u16::MAX);
                            assert(-((pre_st.page_index + 1) as int) * (u16::MAX as int)
                                == -(pre_st.page_index as int) * (u16::MAX as int) - (u16::MAX as int)) by (nonlinear_arith);
                        }
                    }
                } else {
                    proof {
                        assert(spec_dispatched(pages_num_limit, pre_st, pre_rest) == pd0.articles@);
                        assert(pre_dispatched + pd0.articles@ == dispatched@);
                    }
                    break;
                }
            }
        }
    }
    dispatched
}

} // verus!
