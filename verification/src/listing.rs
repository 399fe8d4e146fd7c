//! Listing the objects under a prefix page by page: the decisions between the requests,
//! as a state machine that the caller drives with the pages it receives.
use vstd::prelude::*;

verus! {

/// The objects gathered so far, the token to continue with, and whether the listing is done.
pub struct Listing<T> {
    items: Vec<T>,
    token: Option<String>,
    finished: bool,
}

pub struct ListingView<T> {
    pub items: Seq<T>,
    pub token: Option<Seq<char>>,
    pub finished: bool,
}

impl<T> View for Listing<T> {
    type V = ListingView<T>;

    closed spec fn view(&self) -> ListingView<T> {
        ListingView {
            items: self.items@,
            token: match self.token {
                Some(t) => Some(t@),
                None => None,
            },
            finished: self.finished,
        }
    }
}

/// What the caller does next.
pub enum ListingStep {
    /// Ask for the next page, continuing from the token if there is one.
    Request(Option<String>),
    /// Every page has been received.
    Finished,
}

impl<T> Listing<T> {
    /// A listing that has received nothing yet.
    pub fn new() -> (res: Self)
        ensures
            res@.items == Seq::<T>::empty(),
            res@.token is None,
            !res@.finished,
    {
        Listing { items: Vec::new(), token: None, finished: false }
    }

    /// The request to make next, or that the listing is done.
    pub fn next_step(&self) -> (res: ListingStep)
        ensures
            self@.finished ==> res is Finished,
            !self@.finished ==> (res matches ListingStep::Request(t) && match t {
                Some(s) => self@.token == Some(s@),
                None => self@.token is None,
            }),
    {
        if self.finished {
            ListingStep::Finished
        } else {
            match &self.token {
                Some(t) => ListingStep::Request(Some(t.clone())),
                None => ListingStep::Request(None),
            }
        }
    }

    /// Takes in a page: its objects, if it has any, are added after those gathered so far;
    /// a truncated page is continued from its next token, any other ends the listing.
    pub fn on_page(&mut self, contents: Option<Vec<T>>, is_truncated: bool, next_token: Option<String>)
        ensures
            final(self)@.items == old(self)@.items + match contents {
                Some(c) => c@,
                None => Seq::<T>::empty(),
            },
            final(self)@.finished == (old(self)@.finished || !is_truncated),
            is_truncated ==> final(self)@.token == match next_token {
                Some(s) => Some(s@),
                None => None::<Seq<char>>,
            },
            !is_truncated ==> final(self)@.token == old(self)@.token,
    {
        if let Some(mut page) = contents {
            self.items.append(&mut page);
        }
        if is_truncated {
            self.token = next_token;
        } else {
            self.finished = true;
        }
    }

    /// The objects gathered, in the order of the pages.
    pub fn into_items(self) -> (res: Vec<T>)
        ensures
            res@ == self@.items,
    {
        self.items
    }
}

} // verus!
