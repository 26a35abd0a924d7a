//! An image reference: a name plus a version, rendered as `"<name>:<version>"`
//! for the runtime's image-reference syntax. The version defaults to
//! `"latest"` when unspecified. No escaping is performed; callers supply
//! names valid per the runtime's reference grammar.

use vstd::prelude::*;
use vstd::string::*;

verus! {

#[derive(Debug, PartialEq, Eq, Clone)]
pub enum Image {
    /// A literal, already-formatted `"<name>:<version>"` tag.
    Tag(String),
    /// `<name>` at the default `latest` version.
    Latest(String),
    /// `<name>` pinned to an explicit version.
    Pinned(String, String),
}

pub ghost enum ImageView {
    Tag(Seq<char>),
    Latest(Seq<char>),
    Pinned(Seq<char>, Seq<char>),
}

impl View for Image {
    type V = ImageView;

    open spec fn view(&self) -> ImageView {
        match self {
            Image::Tag(t) => ImageView::Tag(t@),
            Image::Latest(n) => ImageView::Latest(n@),
            Image::Pinned(n, v) => ImageView::Pinned(n@, v@),
        }
    }
}

/// The image-reference text: `"<name>:<version>"`, with `latest` as the
/// default version.
pub open spec fn image_str(i: ImageView) -> Seq<char> {
    match i {
        ImageView::Tag(t) => t,
        ImageView::Latest(n) => n + ":latest"@,
        ImageView::Pinned(n, v) => n + ":"@ + v,
    }
}

impl Image {
    pub fn new_latest(name: &str) -> (r: Self)
        ensures
            r@ == ImageView::Latest(name@),
    {
        Image::Latest(name.to_owned())
    }

    pub fn new_with_version(name: &str, version: &str) -> (r: Self)
        ensures
            r@ == ImageView::Pinned(name@, version@),
    {
        Image::Pinned(name.to_owned(), version.to_owned())
    }

    /// Renders the reference for a runtime command line.
    pub fn format(&self) -> (r: String)
        ensures
            r@ == image_str(self@),
    {
        match self {
            Image::Tag(t) => t.clone(),
            Image::Latest(n) => n.clone().concat(":latest"),
            Image::Pinned(n, v) => n.clone().concat(":").concat(v.as_str()),
        }
    }
}

} // verus!
