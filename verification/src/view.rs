//! The cached list of a view. A view collects at most once until it is
//! refreshed, and a failed collection never takes away a list that is there.
//!
//! The two views are values of their own and share nothing.

use vstd::prelude::*;
use crate::collect::{
    complete, from_source, in_request_order, lemma_same_source, outcome, outcome_view, CollectError,
    CollectFault,
};
use crate::record::Post;
use crate::render::RenderedRow;
use crate::text::{decimal, decimal_string};

verus! {

/// The cache after the outcome of a collection that was made because the cache
/// was asked: a list that is there stays, an empty cache takes the list, and a
/// failure changes nothing.
pub open spec fn filled(
    cache: Option<Seq<(usize, Post)>>,
    collected: Result<Seq<(usize, Post)>, CollectFault>,
) -> Option<Seq<(usize, Post)>> {
    match cache {
        Some(list) => Some(list),
        None => match collected {
            Ok(list) => Some(list),
            Err(_) => None,
        },
    }
}

/// The cache after the outcome of a collection that was made for a refresh: the
/// new list takes the place of the old one, and a failure changes nothing.
pub open spec fn refreshed(
    cache: Option<Seq<(usize, Post)>>,
    collected: Result<Seq<(usize, Post)>, CollectFault>,
) -> Option<Seq<(usize, Post)>> {
    match collected {
        Ok(list) => Some(list),
        Err(_) => cache,
    }
}

/// The query that asks the source for the first `max_items` ids of a view.
pub open spec fn id_list_query(max_items: u16) -> Seq<char> {
    "orderBy=\"$key\"&limitToFirst="@ + decimal(max_items as nat)
}

/// What a cached list looks like to contracts.
pub open spec fn cache_view(cache: Option<&Vec<(usize, Post)>>) -> Option<Seq<(usize, Post)>> {
    match cache {
        Some(list) => Some(list@),
        None => None,
    }
}

/// The cache of one view: no list before the first collection, and then the
/// list of the last collection that succeeded. A list of no items is a list.
#[derive(Clone, Debug)]
pub struct ViewState {
    cache: Option<Vec<(usize, Post)>>,
}

impl View for ViewState {
    type V = Option<Seq<(usize, Post)>>;

    closed spec fn view(&self) -> Option<Seq<(usize, Post)>> {
        match self.cache {
            Some(list) => Some(list@),
            None => None,
        }
    }
}

impl ViewState {
    /// A view that has not collected yet.
    pub fn new() -> (state: ViewState)
        ensures
            state@ == None::<Seq<(usize, Post)>>,
    {
        ViewState { cache: None }
    }

    /// The cached list, if the view has one. Where it has none, the caller
    /// collects and hands the outcome to `fill`.
    pub fn get(&self) -> (cached: Option<&Vec<(usize, Post)>>)
        ensures
            cache_view(cached) == self@,
    {
        match &self.cache {
            Some(list) => Some(list),
            None => None,
        }
    }

    /// Takes the outcome of the collection that was made because `get` had
    /// nothing. A failure is handed back as it came.
    pub fn fill(&mut self, collected: Result<Vec<(usize, Post)>, CollectError>) -> (done: Result<
        (),
        CollectError,
    >)
        ensures
            final(self)@ == filled(old(self)@, outcome_view(collected)),
            done == match collected {
                Ok(_) => Ok::<(), CollectError>(()),
                Err(error) => if old(self)@ is Some {
                    Ok(())
                } else {
                    Err(error)
                },
            },
    {
        if self.cache.is_some() {
            return Ok(());
        }
        match collected {
            Ok(list) => {
                self.cache = Some(list);
                Ok(())
            },
            Err(error) => Err(error),
        }
    }

    /// Takes the outcome of the collection that was made for a refresh. On
    /// success the new list replaces the old one as a whole. A failure is
    /// handed back as it came, and the list that was there stays.
    pub fn refresh(&mut self, collected: Result<Vec<(usize, Post)>, CollectError>) -> (done: Result<
        (),
        CollectError,
    >)
        ensures
            final(self)@ == refreshed(old(self)@, outcome_view(collected)),
            done == match collected {
                Ok(_) => Ok::<(), CollectError>(()),
                Err(error) => Err(error),
            },
            collected is Err ==> final(self)@ == old(self)@,
    {
        match collected {
            Ok(list) => {
                self.cache = Some(list);
                Ok(())
            },
            Err(error) => Err(error),
        }
    }
}

/// Writes the query that asks the source for the first `max_items` ids of a
/// view.
pub fn query(max_items: u16) -> (text: String)
    ensures
        text@ == id_list_query(max_items),
{
    let mut text = String::from_str("orderBy=\"$key\"&limitToFirst=");
    text.append(decimal_string(max_items as u64).as_str());
    text
}

/// The view of the top items.
#[derive(Clone, Debug)]
pub struct TopItems {
    state: ViewState,
    list: Vec<RenderedRow>,
}

/// The view of the new items.
#[derive(Clone, Debug)]
pub struct NewItems {
    state: ViewState,
    list: Vec<RenderedRow>,
}

impl View for TopItems {
    type V = Option<Seq<(usize, Post)>>;

    closed spec fn view(&self) -> Option<Seq<(usize, Post)>> {
        self.state@
    }
}

impl View for NewItems {
    type V = Option<Seq<(usize, Post)>>;

    closed spec fn view(&self) -> Option<Seq<(usize, Post)>> {
        self.state@
    }
}

impl TopItems {
    /// The rows that were last drawn for the view.
    pub closed spec fn rows(&self) -> Seq<RenderedRow> {
        self.list@
    }

    /// The rows that were last drawn for the view.
    pub fn list(&self) -> (rows: &Vec<RenderedRow>)
        ensures
            rows@ == self.rows(),
    {
        &self.list
    }

    /// Keeps the rows that were drawn for the view.
    pub fn set_list(&mut self, rows: Vec<RenderedRow>)
        ensures
            final(self).rows() == rows@,
            final(self)@ == old(self)@,
    {
        self.list = rows;
    }

    /// The view before its first collection, with no rows.
    pub fn new() -> (items: TopItems)
        ensures
            items@ == None::<Seq<(usize, Post)>>,
            items.rows() == Seq::<RenderedRow>::empty(),
    {
        TopItems { state: ViewState::new(), list: Vec::new() }
    }

    /// The cached list, if the view has one.
    pub fn get_vec(&self) -> (cached: Option<&Vec<(usize, Post)>>)
        ensures
            cache_view(cached) == self@,
    {
        self.state.get()
    }

    /// Takes the outcome of the collection that was made because `get_vec` had
    /// nothing.
    pub fn fill(&mut self, collected: Result<Vec<(usize, Post)>, CollectError>) -> (done: Result<
        (),
        CollectError,
    >)
        ensures
            final(self)@ == filled(old(self)@, outcome_view(collected)),
            final(self).rows() == old(self).rows(),
            done == match collected {
                Ok(_) => Ok::<(), CollectError>(()),
                Err(error) => if old(self)@ is Some {
                    Ok(())
                } else {
                    Err(error)
                },
            },
    {
        self.state.fill(collected)
    }

    /// Takes the outcome of the collection that was made for a refresh.
    pub fn refresh(&mut self, collected: Result<Vec<(usize, Post)>, CollectError>) -> (done: Result<
        (),
        CollectError,
    >)
        ensures
            final(self)@ == refreshed(old(self)@, outcome_view(collected)),
            final(self).rows() == old(self).rows(),
            done == match collected {
                Ok(_) => Ok::<(), CollectError>(()),
                Err(error) => Err(error),
            },
            collected is Err ==> final(self)@ == old(self)@,
    {
        self.state.refresh(collected)
    }
}

impl NewItems {
    /// The rows that were last drawn for the view.
    pub closed spec fn rows(&self) -> Seq<RenderedRow> {
        self.list@
    }

    /// The rows that were last drawn for the view.
    pub fn list(&self) -> (rows: &Vec<RenderedRow>)
        ensures
            rows@ == self.rows(),
    {
        &self.list
    }

    /// Keeps the rows that were drawn for the view.
    pub fn set_list(&mut self, rows: Vec<RenderedRow>)
        ensures
            final(self).rows() == rows@,
            final(self)@ == old(self)@,
    {
        self.list = rows;
    }

    /// The view before its first collection, with no rows.
    pub fn new() -> (items: NewItems)
        ensures
            items@ == None::<Seq<(usize, Post)>>,
            items.rows() == Seq::<RenderedRow>::empty(),
    {
        NewItems { state: ViewState::new(), list: Vec::new() }
    }

    /// The cached list, if the view has one.
    pub fn get_vec(&self) -> (cached: Option<&Vec<(usize, Post)>>)
        ensures
            cache_view(cached) == self@,
    {
        self.state.get()
    }

    /// Takes the outcome of the collection that was made because `get_vec` had
    /// nothing.
    pub fn fill(&mut self, collected: Result<Vec<(usize, Post)>, CollectError>) -> (done: Result<
        (),
        CollectError,
    >)
        ensures
            final(self)@ == filled(old(self)@, outcome_view(collected)),
            final(self).rows() == old(self).rows(),
            done == match collected {
                Ok(_) => Ok::<(), CollectError>(()),
                Err(error) => if old(self)@ is Some {
                    Ok(())
                } else {
                    Err(error)
                },
            },
    {
        self.state.fill(collected)
    }

    /// Takes the outcome of the collection that was made for a refresh.
    pub fn refresh(&mut self, collected: Result<Vec<(usize, Post)>, CollectError>) -> (done: Result<
        (),
        CollectError,
    >)
        ensures
            final(self)@ == refreshed(old(self)@, outcome_view(collected)),
            final(self).rows() == old(self).rows(),
            done == match collected {
                Ok(_) => Ok::<(), CollectError>(()),
                Err(error) => Err(error),
            },
            collected is Err ==> final(self)@ == old(self)@,
    {
        self.state.refresh(collected)
    }
}

/// A collection that fails leaves the cache as it was, whether it was made for
/// a refresh or because the cache was asked.
pub proof fn lemma_failure_keeps_cache(cache: Option<Seq<(usize, Post)>>, fault: CollectFault)
    ensures
        refreshed(cache, Err(fault)) == cache,
        filled(cache, Err(fault)) == cache,
{
}

/// A view that has a list does not collect again until it is refreshed: the
/// outcome of a second collection does not change it.
pub proof fn lemma_fill_once(
    cache: Option<Seq<(usize, Post)>>,
    first: Seq<(usize, Post)>,
    second: Result<Seq<(usize, Post)>, CollectFault>,
)
    ensures
        filled(filled(cache, Ok(first)), second) == filled(cache, Ok(first)),
{
}

/// Two refreshes in a row against a source that has not changed leave the same
/// list as one: the batches may complete in different orders, but each gives
/// the records of the same ids under the same positions.
pub proof fn lemma_refresh_twice(
    cache: Option<Seq<(usize, Post)>>,
    ids: Seq<u32>,
    source: spec_fn(u32) -> Post,
    first: Seq<(usize, Post)>,
    second: Seq<(usize, Post)>,
)
    requires
        complete(first),
        complete(second),
        first.len() == ids.len(),
        second.len() == ids.len(),
        from_source(ids, source, first),
        from_source(ids, source, second),
    ensures
        outcome(ids, first, Seq::empty()) == outcome(ids, second, Seq::empty()),
        refreshed(refreshed(cache, outcome(ids, first, Seq::empty())), outcome(
            ids,
            second,
            Seq::empty(),
        )) == refreshed(cache, outcome(ids, first, Seq::empty())),
        refreshed(cache, outcome(ids, first, Seq::empty())) == Some(
            Seq::new(ids.len(), |i: int| ((i + 1) as usize, source(ids[i]))),
        ),
{
    lemma_same_source(ids, source, first, second);
}

} // verus!
