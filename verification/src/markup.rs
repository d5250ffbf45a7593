//! Markup queries. Parsing HTML and matching CSS selectors is left to the
//! `scraper` crate; what a query yields is named here.

use crate::text::string_views;
use vstd::prelude::*;

verus! {

/// The first descendant of an element that a selector matches.
#[derive(Debug, Clone)]
pub struct Anchor {
    /// The text below it, concatenated.
    pub text: String,
    pub href: Option<String>,
}

/// One element that a query matched, with what the parsing rules read of it.
#[derive(Debug, Clone)]
pub struct Element {
    /// The element serialised as markup.
    pub html: String,
    /// The text below it, concatenated.
    pub text: String,
    pub href: Option<String>,
    /// For each inner selector of the query, in order: the first descendant that
    /// it matches, if the selector is valid and matches one.
    pub firsts: Vec<Option<Anchor>>,
}

/// The mathematical value of an `Anchor`.
pub struct AnchorView {
    pub text: Seq<char>,
    pub href: Option<Seq<char>>,
}

/// The mathematical value of an `Element`.
pub struct ElementView {
    pub html: Seq<char>,
    pub text: Seq<char>,
    pub href: Option<Seq<char>>,
    pub firsts: Seq<Option<AnchorView>>,
}

impl View for Anchor {
    type V = AnchorView;

    open spec fn view(&self) -> AnchorView {
        AnchorView {
            text: self.text@,
            href: match self.href {
                Some(h) => Some(h@),
                None => None,
            },
        }
    }
}

impl View for Element {
    type V = ElementView;

    open spec fn view(&self) -> ElementView {
        ElementView {
            html: self.html@,
            text: self.text@,
            href: match self.href {
                Some(h) => Some(h@),
                None => None,
            },
            firsts: self.firsts@.map_values(
                |a: Option<Anchor>|
                    match a {
                        Some(a) => Some(a@),
                        None => None,
                    },
            ),
        }
    }
}

/// The elements of the document `html` that `selector` matches, each with the
/// first match of every selector of `inner` below it; `None` where `selector` is
/// not a valid selector.
pub uninterp spec fn selected(html: Seq<char>, selector: Seq<char>, inner: Seq<Seq<char>>) -> Option<
    Seq<ElementView>,
>;

/// The views of a list of elements.
pub open spec fn element_views(elements: Seq<Element>) -> Seq<ElementView> {
    elements.map_values(|e: Element| e@)
}

/// The view of the result of a query.
pub open spec fn selection_view(found: Option<Vec<Element>>) -> Option<Seq<ElementView>> {
    match found {
        Some(elements) => Some(element_views(elements@)),
        None => None,
    }
}

/// `scraper::Html::parse_document` on `html`, `Selector::parse` on `selector` and
/// `Html::select` with it; of each element `html`, `text` and `attr("href")`,
/// and for each selector of `inner` the first element of `ElementRef::select`,
/// copied out. The result is what the query yields, which is only named here.
#[verifier::external_body]
pub(crate) fn select(html: &str, selector: &str, inner: &Vec<String>) -> (found: Option<
    Vec<Element>,
>)
    ensures
        selection_view(found) == selected(html@, selector@, string_views(inner@)),
{
    let document = scraper::Html::parse_document(html);
    let outer = scraper::Selector::parse(selector).ok()?;
    let below = |e: &scraper::ElementRef, s: &String| {
        let first = e.select(&scraper::Selector::parse(s).ok()?).next()?;
        Some(Anchor { text: first.text().collect(), href: first.attr("href").map(String::from) })
    };
    Some(document.select(&outer).map(|e| Element {
        html: e.html(),
        text: e.text().collect(),
        href: e.attr("href").map(String::from),
        firsts: inner.iter().map(|s| below(&e, s)).collect(),
    }).collect())
}

} // verus!
