//! Extraction of plain text from a fetched page, per site strategy: the
//! structural selection itself is done by an HTML parser behind trusted
//! wrappers; selecting which marker to use, joining multiple matches and
//! the site-specific cleanup substitutions are verified here.

use kuchiki::traits::TendrilSink;
use vstd::prelude::*;

use crate::source::{UrlDriller, UrlView};
use crate::text::{replace, replace_spec};

verus! {

/// The text content of the first element of `html` matched by the
/// selector `sel`, or nothing when the selector is invalid or matches no
/// element. A pure function of the document text and the selector.
pub uninterp spec fn selected_first_text(html: Seq<char>, sel: Seq<char>) -> Option<Seq<char>>;

/// The text contents of every element of `html` matched by the selector
/// `sel`, in document order, or nothing when the selector is invalid. A
/// pure function of the document text and the selector.
pub uninterp spec fn selected_texts(html: Seq<char>, sel: Seq<char>) -> Option<Seq<Seq<char>>>;

/// Relies on kuchiki::parse_html, NodeRef::select_first and
/// NodeDataRef::text_contents: parsing and selection are deterministic
/// in the document text, and select_first errs exactly when the selector
/// is invalid or matches nothing.
#[verifier::external_body]
fn select_first_text(html: &str, sel: &str) -> (r: Option<String>)
    ensures
        r is Some <==> selected_first_text(html@, sel@) is Some,
        r is Some ==> r->0@ == selected_first_text(html@, sel@)->0,
{
    let doc = kuchiki::parse_html().one(html.to_string());
    match doc.select_first(sel) {
        Ok(el) => Some(el.text_contents()),
        Err(()) => None,
    }
}

/// Relies on kuchiki::parse_html, NodeRef::select and
/// NodeDataRef::text_contents: select errs exactly when the selector is
/// invalid, and otherwise yields the matching elements in document
/// order, deterministically in the document text.
#[verifier::external_body]
fn select_all_texts(html: &str, sel: &str) -> (r: Option<Vec<String>>)
    ensures
        r is Some <==> selected_texts(html@, sel@) is Some,
        r is Some ==> r->0@.map_values(|s: String| s@) == selected_texts(html@, sel@)->0,
{
    let doc = kuchiki::parse_html().one(html.to_string());
    match doc.select(sel) {
        Ok(sels) => Some(sels.map(|el| el.text_contents()).collect()),
        Err(()) => None,
    }
}

/// The parts joined with one line break between them: no break before
/// the first part and none after the last.
pub open spec fn joined_lines(parts: Seq<Seq<char>>) -> Seq<char>
    decreases parts.len(),
{
    if parts.len() == 0 {
        Seq::empty()
    } else if parts.len() == 1 {
        parts[0]
    } else {
        parts[0] + seq!['\n'] + joined_lines(parts.skip(1))
    }
}

/// Join the matched texts with a line break between them.
fn join_lines(parts: &Vec<String>) -> (r: String)
    ensures
        r@ == joined_lines(parts@.map_values(|p: String| p@)),
{
    let ghost pv = parts@.map_values(|p: String| p@);
    let mut out = String::new();
    let mut i: usize = 0;
    proof {
        reveal_strlit("\n");
        assert(pv.skip(0) =~= pv);
        assert(out@ + joined_lines(pv) =~= joined_lines(pv));
    }
    while i < parts.len()
        invariant
            0 <= i <= parts.len(),
            pv == parts@.map_values(|p: String| p@),
            "\n"@ =~= seq!['\n'],
            out@ + joined_lines(pv.skip(i as int)) == joined_lines(pv),
        decreases parts.len() - i,
    {
        out.append(parts[i].as_str());
        if i + 1 < parts.len() {
            out.append("\n");
            proof {
                assert(pv.skip(i as int).skip(1) =~= pv.skip(i + 1));
                assert(out@ + joined_lines(pv.skip(i + 1)) =~= joined_lines(pv));
            }
        } else {
            proof {
                assert(pv.skip(i as int).len() == 1);
                assert(pv.skip(i as int)[0] == pv[i as int]);
                assert(pv.skip(i + 1) =~= Seq::<Seq<char>>::empty());
                assert(out@ + joined_lines(pv.skip(i + 1)) =~= joined_lines(pv));
            }
        }
        i = i + 1;
    }
    proof {
        assert(pv.skip(parts@.len() as int) =~= Seq::<Seq<char>>::empty());
        assert(out@ + joined_lines(Seq::<Seq<char>>::empty()) =~= out@);
    }
    out
}

/// Extraction fails when the expected structural marker is absent.
#[derive(Debug, Clone, Copy, PartialEq, Eq, Structural)]
pub enum ExtractError {
    NoSelector,
}

/// What the cool strategy extracts from a prepared body: the text of the
/// single content marker, with the trailing site-branding token turned
/// into a line break; nothing when the marker is absent.
pub open spec fn cool_extract_spec(html: Seq<char>) -> Option<Seq<char>> {
    match selected_first_text(html, ".show_content"@) {
        Some(t) => Some(replace_spec(t, " cool18.com"@, "\n"@)),
        None => None,
    }
}

/// What the mirror strategy extracts from a prepared body: the texts of
/// all post-body markers joined with line breaks between them, with the
/// sentinel that stood for `<br>` tags turned back into line breaks;
/// nothing when the marker is absent from the document structure (no
/// element matches) or the selector is invalid.
pub open spec fn mmirror_extract_spec(html: Seq<char>) -> Option<Seq<char>> {
    match selected_texts(html, "div.card.mm-post > div.card-body"@) {
        Some(ts) => if ts.len() == 0 {
            None
        } else {
            Some(replace_spec(joined_lines(ts), "MMirrorDrillerERT"@, "\n"@))
        },
        None => None,
    }
}

impl UrlDriller {
    /// Extract plain text from a prepared raw body, with the structural
    /// marker and cleanup that this source's site strategy selects.
    pub fn extract(&self, html: &str) -> (r: Result<String, ExtractError>)
        requires
            self@ is Cool || self@ is MMirror,
        ensures
            match self@ {
                UrlView::Cool(_) => match cool_extract_spec(html@) {
                    Some(t) => r is Ok && r->Ok_0@ == t,
                    None => r == Err::<String, ExtractError>(ExtractError::NoSelector),
                },
                UrlView::MMirror(_) => match mmirror_extract_spec(html@) {
                    Some(t) => r is Ok && r->Ok_0@ == t,
                    None => r == Err::<String, ExtractError>(ExtractError::NoSelector),
                },
                _ => true,
            },
    {
        match self {
            UrlDriller::CoolUrlDriller(_) => {
                match select_first_text(html, ".show_content") {
                    Some(t) => {
                        proof {
                            reveal_strlit(" cool18.com");
                        }
                        Ok(replace(t.as_str(), " cool18.com", "\n"))
                    },
                    None => Err(ExtractError::NoSelector),
                }
            },
            UrlDriller::MMirrorDriller(_) => {
                match select_all_texts(html, "div.card.mm-post > div.card-body") {
                    Some(ts) => {
                        if ts.len() == 0 {
                            Err(ExtractError::NoSelector)
                        } else {
                            let joined = join_lines(&ts);
                            proof {
                                reveal_strlit("MMirrorDrillerERT");
                            }
                            Ok(replace(joined.as_str(), "MMirrorDrillerERT", "\n"))
                        }
                    },
                    None => Err(ExtractError::NoSelector),
                }
            },
            _ => Err(ExtractError::NoSelector),
        }
    }

    /// Everything the remote pipeline does to a fetched raw body after
    /// the network call: prepare it for this strategy, then extract its
    /// plain text.
    pub fn parse_fetched(&self, raw: &str) -> (r: Result<String, ExtractError>)
        requires
            self@ is Cool || self@ is MMirror,
        ensures
            match self@ {
                UrlView::Cool(_) => match cool_extract_spec(raw@) {
                    Some(t) => r is Ok && r->Ok_0@ == t,
                    None => r == Err::<String, ExtractError>(ExtractError::NoSelector),
                },
                UrlView::MMirror(_) => match mmirror_extract_spec(
                    replace_spec(raw@, "<br>"@, "<br> MMirrorDrillerERT"@),
                ) {
                    Some(t) => r is Ok && r->Ok_0@ == t,
                    None => r == Err::<String, ExtractError>(ExtractError::NoSelector),
                },
                _ => true,
            },
    {
        let prepared = self.prepare_body(raw);
        self.extract(prepared.as_str())
    }
}

} // verus!
