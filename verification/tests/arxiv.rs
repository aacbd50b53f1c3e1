use semantic_retrieval::arxiv::model::{ArxivError, Paper, SearchArgs};
use semantic_retrieval::arxiv::parser::ArxivParser;
use semantic_retrieval::arxiv::util::convert_pdf_url;
use semantic_retrieval::text::{decimal, integer};

const FEED: &str = r#"<?xml version="1.0" encoding="UTF-8"?>
<feed xmlns="http://www.w3.org/2005/Atom">
  <title>ArXiv Query</title>
  <link href="http://arxiv.org/api/query" rel="self"/>
  <entry>
    <id>http://arxiv.org/abs/1234.5678v1</id>
    <title>A Study of Bees</title>
    <summary>  Bees are studied.  </summary>
    <author><name>Ada</name></author>
    <author><name>Bob</name></author>
    <link href="http://arxiv.org/abs/1234.5678v1" rel="alternate" type="text/html"/>
    <category term="cs.AI" scheme="http://arxiv.org/schemas/atom"/>
    <category term="cs.LG" scheme="http://arxiv.org/schemas/atom"/>
  </entry>
  <entry>
    <title>Second</title>
    <summary>Another one.</summary>
    <link title="pdf" href="http://arxiv.org/pdf/9999.0001v2" rel="related"/>
  </entry>
</feed>"#;

#[test]
fn pdf_links_are_secure() {
    assert_eq!(
        convert_pdf_url("http://arxiv.org/abs/1234.5678v1"),
        "https://arxiv.org/pdf/1234.5678v1.pdf"
    );
    assert_eq!(
        convert_pdf_url("http://arxiv.org/pdf/1234.5678v1"),
        "https://arxiv.org/pdf/1234.5678v1"
    );
    assert_eq!(convert_pdf_url("http://example.org/x"), "https://example.org/x");
    assert_eq!(convert_pdf_url("https://example.org/x"), "https://example.org/x");
    assert_eq!(convert_pdf_url(""), "");
    assert_eq!(
        convert_pdf_url("http://a/http://arxiv.org/abs/1"),
        "https://a/https://arxiv.org/pdf/1.pdf"
    );
}

#[test]
fn feed_is_parsed_into_papers() {
    let papers = ArxivParser::new().parse_response(FEED).unwrap();
    assert_eq!(papers.len(), 2);
    assert_eq!(papers[0].title, "A Study of Bees");
    assert_eq!(papers[0].abstract_text, "Bees are studied.");
    assert_eq!(papers[0].url, "https://arxiv.org/pdf/1234.5678v1.pdf");
    assert_eq!(papers[0].categories, vec!["cs.AI".to_string(), "cs.LG".to_string()]);
    assert_eq!(papers[1].title, "Second");
    assert_eq!(papers[1].url, "https://arxiv.org/pdf/9999.0001v2");
    assert!(papers[1].categories.is_empty());
    assert!(papers[1].authors.is_empty());
}

#[test]
fn feed_without_entries_has_no_results() {
    let empty = "<feed><title>nothing</title></feed>";
    assert!(matches!(ArxivParser::new().parse_response(empty), Err(ArxivError::NoResults)));
    assert!(matches!(ArxivParser::new().parse_response(""), Err(ArxivError::NoResults)));
}

#[test]
fn broken_feed_is_an_xml_error() {
    let broken = "<feed><entry><title>x</title></wrong></feed>";
    assert!(matches!(ArxivParser::new().parse_response(broken), Err(ArxivError::XmlParsing(_))));
}

#[test]
fn events_drive_the_parser() {
    let mut parser = ArxivParser::new();
    parser.parse_text_event(&"ignored".to_string());
    parser.parse_start_event(&"title".to_string());
    parser.parse_text_event(&"outside".to_string());
    parser.parse_end_event(&"title".to_string());
    assert!(matches!(parser.finish(), Err(ArxivError::NoResults)));
    parser.parse_start_event(&"entry".to_string());
    parser.parse_start_event(&"title".to_string());
    parser.parse_text_event(&"T".to_string());
    parser.parse_end_event(&"title".to_string());
    parser.parse_text_event(&"dropped".to_string());
    parser.parse_start_event(&"author".to_string());
    parser.parse_text_event(&"A".to_string());
    parser.parse_end_event(&"author".to_string());
    parser.parse_start_event(&"summary".to_string());
    parser.parse_text_event(&"S".to_string());
    parser.parse_end_event(&"summary".to_string());
    parser.parse_end_event(&"entry".to_string());
    parser.parse_end_event(&"entry".to_string());
    let papers = parser.finish().unwrap();
    assert_eq!(papers.len(), 1);
    assert_eq!(papers[0].title, "T");
    assert_eq!(papers[0].authors, vec!["A".to_string()]);
    assert_eq!(papers[0].abstract_text, "S");
    assert_eq!(papers[0].url, "");
}

#[test]
fn blank_paper_is_empty() {
    let p = Paper::new();
    assert!(p.title.is_empty() && p.authors.is_empty() && p.abstract_text.is_empty());
    assert!(p.url.is_empty() && p.categories.is_empty());
    assert_eq!(p.duplicate().title, "");
}

#[test]
fn request_parameters_are_built() {
    let args = SearchArgs { query: "bees".to_string(), max_results: None };
    assert_eq!(
        args.parameters(),
        vec![
            ("search_query".to_string(), "all:bees".to_string()),
            ("start".to_string(), "0".to_string()),
            ("max_results".to_string(), "5".to_string()),
        ]
    );
    let args = SearchArgs { query: "".to_string(), max_results: Some(-12) };
    assert_eq!(args.parameters()[2].1, "-12");
    assert_eq!(args.parameters()[0].1, "all:");
}

#[test]
fn numbers_are_written_in_decimal() {
    assert_eq!(decimal(0), "0");
    assert_eq!(decimal(9), "9");
    assert_eq!(decimal(10), "10");
    assert_eq!(decimal(5000), "5000");
    assert_eq!(decimal(u64::MAX), u64::MAX.to_string());
    assert_eq!(integer(0), "0");
    assert_eq!(integer(-1), "-1");
    assert_eq!(integer(i64::MIN), i64::MIN.to_string());
    assert_eq!(integer(i64::MAX), i64::MAX.to_string());
}
