//! The render pipeline: source text in, markup out.
//!
//! Rendering is stateless. The markup of a text is whatever pulldown-cmark
//! produces for it; this module gives that markup a name, so that the rest of
//! the crate can say which text an artifact was rendered from.

use pulldown_cmark::{html, Options, Parser};
use vstd::prelude::*;
use vstd::utf8::*;

verus! {

/// The syntax extensions switched on for every render: strikethrough, and
/// nothing else. The value is the bit that pulldown-cmark's `Options` gives to
/// `ENABLE_STRIKETHROUGH`.
pub const EXTENSIONS: u32 = 8;

/// The markup that pulldown-cmark writes for `text` when the extensions whose
/// bits are set in `extensions` are enabled.
pub uninterp spec fn pulldown_html(text: Seq<char>, extensions: u32) -> Seq<char>;

/// The text that `String::from_utf8_lossy` reads out of `bytes`.
pub uninterp spec fn lossy_text(bytes: Seq<u8>) -> Seq<char>;

/// The markup of `text`.
pub open spec fn rendered(text: Seq<char>) -> Seq<char> {
    pulldown_html(text, EXTENSIONS)
}

/// Trusted: runs pulldown-cmark's `Parser::new_ext` on `text`, with the
/// `Options` whose bits are `extensions` (unknown bits are dropped by
/// `Options::from_bits_truncate`), and collects what `html::push_html` writes.
/// The contract only names that output; it claims nothing about its shape.
#[verifier::external_body]
fn push_html(text: &str, extensions: u32) -> (markup: String)
    ensures
        markup@ == pulldown_html(text@, extensions),
{
    let mut markup = String::new();
    html::push_html(&mut markup, Parser::new_ext(text, Options::from_bits_truncate(extensions)));
    markup
}

/// Trusted: `String::from_utf8_lossy`. Well-formed UTF-8 is decoded as it
/// stands; for anything else the contract only names the result.
#[verifier::external_body]
fn from_utf8_lossy(bytes: &[u8]) -> (text: String)
    ensures
        text@ == lossy_text(bytes@),
        valid_utf8(bytes@) ==> text@ == decode_utf8(bytes@),
{
    String::from_utf8_lossy(bytes).into_owned()
}

/// Renders `markdown` to markup.
pub fn markdown_to_html(markdown: &str) -> (html: String)
    ensures
        html@ == rendered(markdown@),
{
    push_html(markdown, EXTENSIONS)
}

/// Stateless preview: renders the text read leniently out of `body`. No
/// document is touched.
pub fn render(body: &[u8]) -> (html: String)
    ensures
        html@ == rendered(lossy_text(body@)),
        valid_utf8(body@) ==> html@ == rendered(decode_utf8(body@)),
{
    let text = from_utf8_lossy(body);
    markdown_to_html(text.as_str())
}

/// Rendering is deterministic: two renders of one text cannot differ.
pub proof fn lemma_render_deterministic(text: Seq<char>, first: Seq<char>, second: Seq<char>)
    requires
        first == rendered(text),
        second == rendered(text),
    ensures
        first == second,
{
}

} // verus!
