use vstd::prelude::*;

verus! {

/// The text that the external HTML minifier yields for a given input
/// text. The transform depends on the input text alone.
pub uninterp spec fn minified_of(s: Seq<char>) -> Seq<char>;

/// Relies on minifier's `html::minify`: text in, minified text out, a
/// pure function of the input text.
#[verifier::external_body]
fn minify_html(s: &String) -> (r: String)
    ensures
        r@ == minified_of(s@),
{
    minifier::html::minify(s.as_str())
}

/// The finished document: minified when asked for, untouched
/// otherwise.
pub fn finish_document(html: String, minify: bool) -> (r: String)
    ensures
        minify ==> r@ == minified_of(html@),
        !minify ==> r@ == html@,
{
    if minify {
        minify_html(&html)
    } else {
        html
    }
}

} // verus!
