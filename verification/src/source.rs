//! Source descriptors and the URL-keyed fetch strategies: classifying a
//! source line as local or remote, resolving a remote URL to its site
//! strategy, and planning a fetch (headers, preconditions) without
//! performing any network work.

use vstd::prelude::*;

use crate::text::{contains, contains_sub, has_prefix, replace, replace_spec, starts_with,
    suffix_from};

verus! {

/// Spec-level form of a source descriptor.
pub enum SourceView {
    Local(Seq<char>),
    Remote(Seq<char>),
}

/// One fetchable document: a local file path or a remote page URL.
#[derive(Debug, Clone)]
pub enum SourceDescriptor {
    Local(String),
    Remote(String),
}

impl View for SourceDescriptor {
    type V = SourceView;

    open spec fn view(&self) -> SourceView {
        match self {
            SourceDescriptor::Local(p) => SourceView::Local(p@),
            SourceDescriptor::Remote(u) => SourceView::Remote(u@),
        }
    }
}

/// The descriptor a trimmed source line denotes: a remote URL for an
/// `http` line, a local path (the text after the scheme) for a `file://`
/// line, nothing otherwise.
pub open spec fn source_of_line(t: Seq<char>) -> Option<SourceView> {
    if has_prefix(t, "http"@) {
        Some(SourceView::Remote(t))
    } else if has_prefix(t, "file://"@) {
        Some(SourceView::Local(t.skip("file://"@.len() as int)))
    } else {
        None
    }
}

/// Classify one trimmed line as a source descriptor, if it is one.
pub fn classify_source_line(t: &str) -> (r: Option<SourceDescriptor>)
    ensures
        match r {
            Some(d) => source_of_line(t@) == Some(d@),
            None => source_of_line(t@) is None,
        },
{
    if starts_with(t, "http") {
        Some(SourceDescriptor::Remote(t.to_owned()))
    } else if starts_with(t, "file://") {
        let p = suffix_from(t, "file://".unicode_len());
        Some(SourceDescriptor::Local(p))
    } else {
        None
    }
}

/// Reads a whole local file; the verified part of the local fetch path.
pub struct FileDriller {
    pub filename: String,
}

impl FileDriller {
    /// Remember the path of the local file to read.
    pub fn new(file: &str) -> (r: Self)
        ensures
            r.filename@ == file@,
    {
        FileDriller { filename: file.to_owned() }
    }
}

/// Spec-level form of a resolved URL strategy.
pub enum UrlView {
    Cool(Seq<char>),
    Rm(Seq<char>),
    MMirror(Seq<char>),
    Unknown,
}

/// A remote source, resolved to the site strategy its domain selects.
#[derive(Debug, Clone)]
pub enum UrlDriller {
    RMUrlDriller(String),
    CoolUrlDriller(String),
    MMirrorDriller(String),
    UnknownDriller,
}

impl View for UrlDriller {
    type V = UrlView;

    open spec fn view(&self) -> UrlView {
        match self {
            UrlDriller::RMUrlDriller(u) => UrlView::Rm(u@),
            UrlDriller::CoolUrlDriller(u) => UrlView::Cool(u@),
            UrlDriller::MMirrorDriller(u) => UrlView::MMirror(u@),
            UrlDriller::UnknownDriller => UrlView::Unknown,
        }
    }
}

/// The strategy a URL resolves to, keyed by a domain substring; an
/// unrecognized domain resolves to no strategy.
pub open spec fn classify_url(u: Seq<char>) -> UrlView {
    if contains_sub(u, "cool18.com"@) {
        UrlView::Cool(u)
    } else if contains_sub(u, "s80m.com"@) {
        UrlView::Rm(u)
    } else if contains_sub(u, "chromaso.net"@) {
        UrlView::MMirror(u)
    } else {
        UrlView::Unknown
    }
}

/// What a planned remote fetch needs besides the shared client: the URL
/// and an optional referer header.
#[derive(Debug)]
pub struct FetchPlan {
    pub url: String,
    pub referer: Option<String>,
}

/// Why a remote fetch is refused before any network call.
#[derive(Debug, Clone, Copy, PartialEq, Eq, Structural)]
pub enum FetchError {
    /// The URL's domain matches no known site strategy.
    UnknownUrl,
    /// The mirror strategy requires the explicit show-one-post marker in
    /// the query, else the page would be polluted with unrelated posts.
    MissingShowMarker,
}

impl UrlDriller {
    /// Resolve a URL to the strategy its domain substring selects.
    pub fn new(url: String) -> (r: Self)
        ensures
            r@ == classify_url(url@),
    {
        if contains(url.as_str(), "cool18.com") {
            UrlDriller::CoolUrlDriller(url)
        } else if contains(url.as_str(), "s80m.com") {
            UrlDriller::RMUrlDriller(url)
        } else if contains(url.as_str(), "chromaso.net") {
            UrlDriller::MMirrorDriller(url)
        } else {
            UrlDriller::UnknownDriller
        }
    }

    /// Decide how (and whether) this source may be fetched, before any
    /// network call: an unknown domain fails, and the mirror strategy
    /// fails when the URL lacks the `show=` filter marker.
    pub fn fetch_plan(&self) -> (r: Result<FetchPlan, FetchError>)
        requires
            !(self@ is Rm),
        ensures
            match self@ {
                UrlView::Cool(u) => r is Ok && r->Ok_0.url@ == u && r->Ok_0.referer is None,
                UrlView::MMirror(u) => if contains_sub(u, "show="@) {
                    r is Ok && r->Ok_0.url@ == u && r->Ok_0.referer is Some
                        && r->Ok_0.referer->0@ == "https://mirror.chromaso.net/forum/"@
                } else {
                    r == Err::<FetchPlan, FetchError>(FetchError::MissingShowMarker)
                },
                UrlView::Rm(u) => true,
                UrlView::Unknown => r == Err::<FetchPlan, FetchError>(FetchError::UnknownUrl),
            },
    {
        match self {
            UrlDriller::CoolUrlDriller(url) => Ok(
                FetchPlan { url: url.clone(), referer: None },
            ),
            UrlDriller::MMirrorDriller(url) => {
                if !contains(url.as_str(), "show=") {
                    Err(FetchError::MissingShowMarker)
                } else {
                    Ok(
                        FetchPlan {
                            url: url.clone(),
                            referer: Some(
                                "https://mirror.chromaso.net/forum/".to_owned(),
                            ),
                        },
                    )
                }
            },
            UrlDriller::RMUrlDriller(_) => Err(FetchError::UnknownUrl),
            UrlDriller::UnknownDriller => Err(FetchError::UnknownUrl),
        }
    }

    /// Prepare a fetched raw body for extraction: the mirror strategy
    /// marks each `<br>` tag with a sentinel text token so that line
    /// breaks survive extraction; other strategies pass the body through.
    pub fn prepare_body(&self, body: &str) -> (r: String)
        requires
            self@ is Cool || self@ is MMirror,
        ensures
            match self@ {
                UrlView::Cool(u) => r@ == body@,
                UrlView::MMirror(u) => r@ == replace_spec(
                    body@,
                    "<br>"@,
                    "<br> MMirrorDrillerERT"@,
                ),
                _ => true,
            },
    {
        match self {
            UrlDriller::MMirrorDriller(_) => {
                proof {
                    reveal_strlit("<br>");
                }
                replace(body, "<br>", "<br> MMirrorDrillerERT")
            },
            _ => body.to_owned(),
        }
    }
}

} // verus!
