//! The parser of the search service's answer: a state machine over the
//! events of the XML document that collects one paper for each `entry`.

use vstd::prelude::*;
use crate::arxiv::model::{blank_paper, ArxivError, Paper, PaperView};
use crate::arxiv::util::{convert_pdf_url, pdf_url};
use crate::arxiv::xml::{classify, is_word, next_event, open_reader, tag_of, Tag, XmlEvent};

verus! {

/// The part of a paper that the text inside an element belongs to.
#[derive(Clone, Copy, Debug, PartialEq, Eq, Structural)]
pub enum Field {
    Title,
    Author,
    Abstract,
    Link,
    Category,
}

/// The state of the parser.
pub struct ParserView {
    pub papers: Seq<PaperView>,
    pub current_paper: Option<PaperView>,
    pub current_authors: Seq<Seq<char>>,
    pub current_categories: Seq<Seq<char>>,
    pub in_entry: bool,
    pub current_field: Option<Field>,
}

/// The state before any event.
pub open spec fn initial() -> ParserView {
    ParserView {
        papers: Seq::empty(),
        current_paper: None,
        current_authors: Seq::empty(),
        current_categories: Seq::empty(),
        in_entry: false,
        current_field: None,
    }
}

/// The state with `field` as the current one, inside an entry; outside of
/// one, the state as it is.
pub open spec fn with_field(s: ParserView, field: Field) -> ParserView {
    if s.in_entry {
        ParserView { current_field: Some(field), ..s }
    } else {
        s
    }
}

/// The state after the start of an element: an `entry` begins a blank paper
/// without authors and categories; the other known elements, inside an
/// entry, choose the field that the next text belongs to.
pub open spec fn after_start(s: ParserView, tag: Tag) -> ParserView {
    match tag {
        Tag::Entry => ParserView {
            in_entry: true,
            current_paper: Some(blank_paper()),
            current_authors: Seq::empty(),
            current_categories: Seq::empty(),
            ..s
        },
        Tag::Title => with_field(s, Field::Title),
        Tag::Author => with_field(s, Field::Author),
        Tag::Summary => with_field(s, Field::Abstract),
        Tag::Link => with_field(s, Field::Link),
        Tag::Category => with_field(s, Field::Category),
        Tag::Other => s,
    }
}

/// The state after the end of an element: the end of an `entry` adds the
/// current paper, with the authors and categories collected for it, to the
/// papers; the end of another known element leaves no current field.
pub open spec fn after_end(s: ParserView, tag: Tag) -> ParserView {
    match tag {
        Tag::Entry => ParserView {
            papers: match s.current_paper {
                Some(paper) => s.papers.push(
                    PaperView {
                        authors: s.current_authors,
                        categories: s.current_categories,
                        ..paper
                    },
                ),
                None => s.papers,
            },
            current_paper: None,
            in_entry: false,
            ..s
        },
        Tag::Other => s,
        _ => ParserView { current_field: None, ..s },
    }
}

/// The state after a text. Without a current paper the text is passed over.
/// With one, it becomes the title or the abstract, or one more author, as
/// the current field says.
pub open spec fn after_text(s: ParserView, text: Seq<char>) -> ParserView {
    match s.current_paper {
        None => s,
        Some(paper) => match s.current_field {
            Some(Field::Title) => ParserView {
                current_paper: Some(PaperView { title: text, ..paper }),
                ..s
            },
            Some(Field::Author) => ParserView { current_authors: s.current_authors.push(text), ..s },
            Some(Field::Abstract) => ParserView {
                current_paper: Some(PaperView { abstract_text: text, ..paper }),
                ..s
            },
            _ => s,
        },
    }
}

/// The link of the current paper after the attributes of a `link` element:
/// each `href` in turn replaces the link by the PDF link of its value.
pub open spec fn link_after(url: Seq<char>, attributes: Seq<Option<(Seq<char>, Seq<char>)>>) -> Seq<
    char,
>
    decreases attributes.len(),
{
    if attributes.len() == 0 {
        url
    } else {
        let before = link_after(url, attributes.drop_last());
        match attributes.last() {
            Some((key, value)) => if key == "href"@ {
                pdf_url(value)
            } else {
                before
            },
            None => before,
        }
    }
}

/// The categories after the attributes of a `category` element: each `term`
/// in turn adds its value.
pub open spec fn categories_after(
    categories: Seq<Seq<char>>,
    attributes: Seq<Option<(Seq<char>, Seq<char>)>>,
) -> Seq<Seq<char>>
    decreases attributes.len(),
{
    if attributes.len() == 0 {
        categories
    } else {
        let before = categories_after(categories, attributes.drop_last());
        match attributes.last() {
            Some((key, value)) => if key == "term"@ {
                before.push(value)
            } else {
                before
            },
            None => before,
        }
    }
}

/// The state after an element without content. Outside of an entry nothing
/// happens. Inside, a `link` sets the link of the current paper, if there is
/// one, and a `category` adds categories.
pub open spec fn after_empty(
    s: ParserView,
    tag: Tag,
    attributes: Seq<Option<(Seq<char>, Seq<char>)>>,
) -> ParserView {
    if !s.in_entry {
        s
    } else if tag == Tag::Link {
        match s.current_paper {
            Some(paper) => ParserView {
                current_paper: Some(PaperView { url: link_after(paper.url, attributes), ..paper }),
                ..s
            },
            None => s,
        }
    } else if tag == Tag::Category {
        ParserView { current_categories: categories_after(s.current_categories, attributes), ..s }
    } else {
        s
    }
}

/// The state after one event.
pub open spec fn after_event(s: ParserView, event: XmlEvent) -> ParserView {
    match event {
        XmlEvent::Start(name) => after_start(s, tag_of(name@)),
        XmlEvent::End(name) => after_end(s, tag_of(name@)),
        XmlEvent::Empty(name, attributes) => after_empty(s, tag_of(name@), attributes.deep_view()),
        XmlEvent::Text(text) => after_text(s, text@),
        XmlEvent::Eof => s,
        XmlEvent::Other => s,
    }
}

/// The state after a sequence of events, taken in order.
pub open spec fn after_events(s: ParserView, events: Seq<XmlEvent>) -> ParserView
    decreases events.len(),
{
    if events.len() == 0 {
        s
    } else {
        after_event(after_events(s, events.drop_last()), events.last())
    }
}

/// The parser of an answer of the search service.
#[derive(Debug)]
pub struct ArxivParser {
    papers: Vec<Paper>,
    current_paper: Option<Paper>,
    current_authors: Vec<String>,
    current_categories: Vec<String>,
    in_entry: bool,
    current_field: Option<Field>,
}

impl View for ArxivParser {
    type V = ParserView;

    closed spec fn view(&self) -> ParserView {
        ParserView {
            papers: self.papers.deep_view(),
            current_paper: match self.current_paper {
                Some(paper) => Some(paper@),
                None => None,
            },
            current_authors: self.current_authors.deep_view(),
            current_categories: self.current_categories.deep_view(),
            in_entry: self.in_entry,
            current_field: self.current_field,
        }
    }
}

impl ArxivParser {
    /// A parser that has seen no event.
    pub fn new() -> (res: ArxivParser)
        ensures
            res@ == initial(),
    {
        let res = ArxivParser {
            papers: Vec::new(),
            current_paper: None,
            current_authors: Vec::new(),
            current_categories: Vec::new(),
            in_entry: false,
            current_field: None,
        };
        assert(res@.papers =~= Seq::empty());
        assert(res@.current_authors =~= Seq::empty());
        assert(res@.current_categories =~= Seq::empty());
        res
    }

    /// Takes the start of the element called `name`.
    pub fn parse_start_event(&mut self, name: &String)
        ensures
            final(self)@ == after_start(old(self)@, tag_of(name@)),
    {
        match classify(name) {
            Tag::Entry => {
                self.in_entry = true;
                self.current_paper = Some(Paper::new());
                self.current_authors.clear();
                self.current_categories.clear();
                assert(self.current_authors.deep_view() =~= Seq::empty());
                assert(self.current_categories.deep_view() =~= Seq::empty());
            },
            Tag::Title => {
                if self.in_entry {
                    self.current_field = Some(Field::Title);
                }
            },
            Tag::Author => {
                if self.in_entry {
                    self.current_field = Some(Field::Author);
                }
            },
            Tag::Summary => {
                if self.in_entry {
                    self.current_field = Some(Field::Abstract);
                }
            },
            Tag::Link => {
                if self.in_entry {
                    self.current_field = Some(Field::Link);
                }
            },
            Tag::Category => {
                if self.in_entry {
                    self.current_field = Some(Field::Category);
                }
            },
            Tag::Other => {},
        }
    }

    /// Takes a text of the document.
    pub fn parse_text_event(&mut self, text: &String)
        ensures
            final(self)@ == after_text(old(self)@, text@),
    {
        if self.current_paper.is_none() {
            return ;
        }
        match self.current_field {
            Some(Field::Title) => {
                match &mut self.current_paper {
                    Some(paper) => {
                        paper.title = text.clone();
                    },
                    None => {},
                }
            },
            Some(Field::Author) => {
                let ghost before = self.current_authors.deep_view();
                self.current_authors.push(text.clone());
                assert(self.current_authors.deep_view() =~= before.push(text@));
            },
            Some(Field::Abstract) => {
                match &mut self.current_paper {
                    Some(paper) => {
                        paper.abstract_text = text.clone();
                    },
                    None => {},
                }
            },
            _ => {},
        }
    }

    /// Takes an element without content, called `name`, with its attributes.
    pub fn parse_empty_event(&mut self, name: &String, attributes: &Vec<Option<(String, String)>>)
        ensures
            final(self)@ == after_empty(old(self)@, tag_of(name@), attributes.deep_view()),
    {
        if !self.in_entry {
            return ;
        }
        let tag = classify(name);
        let ghost all = attributes.deep_view();
        if tag == Tag::Link {
            match &mut self.current_paper {
                Some(paper) => {
                    let ghost start = paper.url@;
                    let mut i: usize = 0;
                    assert(all.take(0) =~= Seq::empty());
                    while i < attributes.len()
                        invariant
                            i <= attributes.len(),
                            all == attributes.deep_view(),
                            link_after(start, all.take(i as int)) == paper.url@,
                            paper.title == old(self).current_paper->0.title,
                            paper.authors == old(self).current_paper->0.authors,
                            paper.abstract_text == old(self).current_paper->0.abstract_text,
                            paper.categories == old(self).current_paper->0.categories,
                        decreases attributes.len() - i,
                    {
                        proof {
                            assert(all.take(i + 1).drop_last() =~= all.take(i as int));
                            assert(all.take(i + 1).last() == all[i as int]);
                        }
                        match &attributes[i] {
                            Some(attribute) => {
                                if is_word(&attribute.0, "href") {
                                    paper.url = convert_pdf_url(attribute.1.as_str());
                                }
                            },
                            None => {},
                        }
                        i += 1;
                    }
                    assert(all.take(attributes.len() as int) =~= all);
                },
                None => {},
            }
        } else if tag == Tag::Category {
            let ghost start = self.current_categories.deep_view();
            let mut i: usize = 0;
            assert(all.take(0) =~= Seq::empty());
            while i < attributes.len()
                invariant
                    i <= attributes.len(),
                    all == attributes.deep_view(),
                    categories_after(start, all.take(i as int)) == self.current_categories.deep_view(),
                    self.papers == old(self).papers,
                    self.current_paper == old(self).current_paper,
                    self.current_authors == old(self).current_authors,
                    self.in_entry == old(self).in_entry,
                    self.current_field == old(self).current_field,
                decreases attributes.len() - i,
            {
                proof {
                    assert(all.take(i + 1).drop_last() =~= all.take(i as int));
                    assert(all.take(i + 1).last() == all[i as int]);
                }
                match &attributes[i] {
                    Some(attribute) => {
                        if is_word(&attribute.0, "term") {
                            let ghost before = self.current_categories.deep_view();
                            self.current_categories.push(attribute.1.clone());
                            assert(self.current_categories.deep_view() =~= before.push(attribute.1@));
                        }
                    },
                    None => {},
                }
                i += 1;
            }
            assert(all.take(attributes.len() as int) =~= all);
        }
    }

    /// Takes the end of the element called `name`.
    pub fn parse_end_event(&mut self, name: &String)
        ensures
            final(self)@ == after_end(old(self)@, tag_of(name@)),
    {
        match classify(name) {
            Tag::Entry => {
                let mut finished: Option<Paper> = None;
                core::mem::swap(&mut self.current_paper, &mut finished);
                match finished {
                    Some(paper) => {
                        let ghost before = self.papers.deep_view();
                        let paper = Paper {
                            title: paper.title,
                            authors: self.current_authors.clone(),
                            abstract_text: paper.abstract_text,
                            url: paper.url,
                            categories: self.current_categories.clone(),
                        };
                        self.papers.push(paper);
                        assert(self.papers.deep_view() =~= before.push(paper@));
                    },
                    None => {},
                }
                self.in_entry = false;
            },
            Tag::Other => {},
            _ => {
                self.current_field = None;
            },
        }
    }

    /// Takes one event of the document.
    pub fn parse_event(&mut self, event: &XmlEvent)
        ensures
            final(self)@ == after_event(old(self)@, *event),
    {
        match event {
            XmlEvent::Start(name) => self.parse_start_event(name),
            XmlEvent::End(name) => self.parse_end_event(name),
            XmlEvent::Empty(name, attributes) => self.parse_empty_event(name, attributes),
            XmlEvent::Text(text) => self.parse_text_event(text),
            XmlEvent::Eof => {},
            XmlEvent::Other => {},
        }
    }

    /// The papers collected so far; `NoResults` when there is none.
    pub fn finish(&self) -> (res: Result<Vec<Paper>, ArxivError>)
        ensures
            self@.papers.len() == 0 ==> res is Err && res->Err_0 is NoResults,
            self@.papers.len() > 0 ==> res is Ok && res->Ok_0.deep_view() == self@.papers,
    {
        if self.papers.len() == 0 {
            return Err(ArxivError::NoResults);
        }
        let mut papers: Vec<Paper> = Vec::new();
        let mut i: usize = 0;
        while i < self.papers.len()
            invariant
                i <= self.papers.len(),
                papers.len() == i,
                forall|j: int| 0 <= j < i ==> (#[trigger] papers[j])@ == self.papers[j]@,
            decreases self.papers.len() - i,
        {
            papers.push(self.papers[i].duplicate());
            i += 1;
        }
        assert(papers.deep_view() =~= self.papers.deep_view());
        Ok(papers)
    }

    /// Reads the answer of the search service and returns its papers.
    ///
    /// The events of the document are taken one by one until the document
    /// ends. The state afterwards is the state after the events that were
    /// read. The result is the papers of that state; `NoResults` when the
    /// document ended without a paper; the reader's error when it could not
    /// read on; `Unfinished` when the reader delivered more events than the
    /// answer has bytes.
    pub fn parse_response(&mut self, input: &str) -> (res: Result<Vec<Paper>, ArxivError>)
        ensures
            exists|events: Seq<XmlEvent>|
                {
                    &&& final(self)@ == #[trigger] after_events(old(self)@, events)
                    &&& events.len() <= input.len() + 1
                    &&& match res {
                        Ok(papers) => final(self)@.papers.len() > 0 && papers.deep_view()
                            == final(self)@.papers,
                        Err(ArxivError::NoResults) => final(self)@.papers.len() == 0,
                        Err(ArxivError::XmlParsing(_)) => true,
                        Err(ArxivError::Unfinished) => events.len() == input.len() + 1,
                    }
                },
    {
        let mut reader = open_reader(input);
        let limit = input.len();
        let ghost mut events: Seq<XmlEvent> = Seq::empty();
        let mut taken: usize = 0;
        loop
            invariant
                taken == events.len(),
                taken <= limit,
                limit == input.len(),
                after_events(old(self)@, events) == self@,
            decreases limit - taken,
        {
            let event = match next_event(&mut reader) {
                Ok(event) => event,
                Err(e) => {
                    return Err(ArxivError::XmlParsing(e));
                },
            };
            if let XmlEvent::Eof = event {
                return self.finish();
            }
            proof {
                assert(events.push(event).drop_last() =~= events);
                events = events.push(event);
            }
            self.parse_event(&event);
            if taken == limit {
                return Err(ArxivError::Unfinished);
            }
            taken += 1;
        }
    }
}

} // verus!
