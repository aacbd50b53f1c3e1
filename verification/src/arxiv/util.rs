//! Links to papers.

use vstd::prelude::*;
use crate::text::{escaped, has_substring, html_text, replaced, str_contains, str_replace};

verus! {

/// The link under which the PDF of a paper is read: an abstract link becomes
/// the PDF link and gets the ending `.pdf`, and every link is made secure.
pub open spec fn pdf_url(url: Seq<char>) -> Seq<char> {
    if has_substring(url, "arxiv.org/abs/"@) {
        replaced(replaced(url, "arxiv.org/abs/"@, "arxiv.org/pdf/"@), "http://"@, "https://"@)
            + ".pdf"@
    } else {
        replaced(url, "http://"@, "https://"@)
    }
}

/// Turns the link of a paper into the secure link of its PDF.
pub fn convert_pdf_url(url: &str) -> (res: String)
    ensures
        res@ == pdf_url(url@),
{
    proof {
        reveal_strlit("arxiv.org/abs/");
        reveal_strlit("http://");
    }
    if str_contains(url, "arxiv.org/abs/") {
        let pdf = str_replace(url, "arxiv.org/abs/", "arxiv.org/pdf/");
        let mut secure = str_replace(pdf.as_str(), "http://", "https://");
        secure.append(".pdf");
        secure
    } else {
        str_replace(url, "http://", "https://")
    }
}

/// An answer that is not a list of papers, as a block of an HTML page that
/// shows it as it came.
pub open spec fn raw_block(answer: Seq<char>) -> Seq<char> {
    "<div style=\"white-space: pre-wrap; font-family: monospace;\">"@ + escaped(answer) + "</div>"@
}

/// The block of an HTML page that shows an answer as it came.
pub fn raw_answer_html(answer: &str) -> (html: String)
    ensures
        html@ == raw_block(answer@),
{
    let mut html = "<div style=\"white-space: pre-wrap; font-family: monospace;\">".to_owned();
    html.append(html_text(answer).as_str());
    html.append("</div>");
    assert(html@ =~= raw_block(answer@));
    html
}

} // verus!
