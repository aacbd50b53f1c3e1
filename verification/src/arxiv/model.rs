//! What a search for papers takes and gives.

use vstd::prelude::*;
use crate::text::{integer, integer_text};

verus! {

/// A paper as the search service describes it.
#[derive(Debug)]
pub struct Paper {
    pub title: String,
    pub authors: Vec<String>,
    pub abstract_text: String,
    pub url: String,
    pub categories: Vec<String>,
}

/// What a [`Paper`] holds.
pub struct PaperView {
    pub title: Seq<char>,
    pub authors: Seq<Seq<char>>,
    pub abstract_text: Seq<char>,
    pub url: Seq<char>,
    pub categories: Seq<Seq<char>>,
}

impl View for Paper {
    type V = PaperView;

    open spec fn view(&self) -> PaperView {
        PaperView {
            title: self.title@,
            authors: self.authors.deep_view(),
            abstract_text: self.abstract_text@,
            url: self.url@,
            categories: self.categories.deep_view(),
        }
    }
}

impl DeepView for Paper {
    type V = PaperView;

    open spec fn deep_view(&self) -> PaperView {
        self@
    }
}

/// A paper of which nothing is known yet.
pub open spec fn blank_paper() -> PaperView {
    PaperView {
        title: Seq::empty(),
        authors: Seq::empty(),
        abstract_text: Seq::empty(),
        url: Seq::empty(),
        categories: Seq::empty(),
    }
}

impl Paper {
    /// A paper of which nothing is known yet.
    pub fn new() -> (res: Paper)
        ensures
            res@ == blank_paper(),
    {
        let res = Paper {
            title: String::new(),
            authors: Vec::new(),
            abstract_text: String::new(),
            url: String::new(),
            categories: Vec::new(),
        };
        assert(res@.authors =~= Seq::empty());
        assert(res@.categories =~= Seq::empty());
        res
    }

    /// A copy that holds the same.
    pub fn duplicate(&self) -> (res: Paper)
        ensures
            res@ == self@,
    {
        Paper {
            title: self.title.clone(),
            authors: self.authors.clone(),
            abstract_text: self.abstract_text.clone(),
            url: self.url.clone(),
            categories: self.categories.clone(),
        }
    }
}

/// Why a search for papers gave none.
#[derive(Debug)]
pub enum ArxivError {
    /// The answer is not XML that the reader accepts.
    XmlParsing(quick_xml::Error),
    /// The reader delivered more events than the answer has bytes.
    Unfinished,
    /// The answer holds no paper.
    NoResults,
}

/// What to search for, and how many papers at most.
#[derive(Debug)]
pub struct SearchArgs {
    pub query: String,
    pub max_results: Option<i32>,
}

/// How many papers a search returns when the caller names no number.
pub const DEFAULT_MAX_RESULTS: i32 = 5;

/// The number of papers that a search asks for.
pub open spec fn wanted_results(max_results: Option<i32>) -> int {
    match max_results {
        Some(n) => n as int,
        None => DEFAULT_MAX_RESULTS as int,
    }
}

/// The parameters of the request that a search sends: the query in all
/// fields, from the first result on, and the number of results.
pub open spec fn request_parameters(query: Seq<char>, max_results: Option<i32>) -> Seq<
    (Seq<char>, Seq<char>),
> {
    seq![
        ("search_query"@, "all:"@ + query),
        ("start"@, integer_text(0)),
        ("max_results"@, integer_text(wanted_results(max_results))),
    ]
}

impl SearchArgs {
    /// The parameters of the request for this search, in the order in which
    /// they are sent.
    pub fn parameters(&self) -> (res: Vec<(String, String)>)
        ensures
            res.deep_view() == request_parameters(self.query@, self.max_results),
    {
        let max_results: i32 = match self.max_results {
            Some(n) => n,
            None => DEFAULT_MAX_RESULTS,
        };
        let mut search_query = "all:".to_owned();
        search_query.append(self.query.as_str());
        let mut res: Vec<(String, String)> = Vec::new();
        res.push(("search_query".to_owned(), search_query));
        res.push(("start".to_owned(), integer(0)));
        res.push(("max_results".to_owned(), integer(max_results as i64)));
        assert(res.deep_view() =~= request_parameters(self.query@, self.max_results));
        res
    }
}

/// The tool that searches arXiv for papers.
#[derive(Debug)]
pub struct ArxivSearchTool;

impl ArxivSearchTool {
    /// The name under which the tool is offered to the model.
    pub fn name() -> (text: String)
        ensures
            text@ == "search_arxiv"@,
    {
        "search_arxiv".to_owned()
    }

    /// What the tool does, in the words in which it is offered to the model.
    pub fn description() -> (text: String)
        ensures
            text@ == "Search for academic papers on arXiv"@,
    {
        "Search for academic papers on arXiv".to_owned()
    }
}

} // verus!
