//! Written content: posts and guides, each a document that opens with its
//! front matter as one JSON value and goes on with markdown.

use vstd::prelude::*;
use vstd::string::StringSliceAdditionalSpecFns;
use vstd::utf8::is_char_boundary;
use std::path::PathBuf;

verus! {

/// `std::path::PathBuf`, carried through as it is.
#[verifier::external_type_specification]
#[verifier::external_body]
pub struct ExPathBuf(PathBuf);

/// The posts of the blog.
pub struct BlogPost;

/// The front matter of a blog post.
#[derive(Clone, Debug, PartialEq, Eq)]
pub struct BlogPostFrontMatter {
    pub title: String,
    pub date: String,
}

/// The guides of the documentation.
pub struct DocsGuide;

/// The front matter of a guide.
#[derive(Clone, Debug, PartialEq, Eq)]
pub struct DocsGuideFrontMatter {
    pub title: String,
}

/// One document: where it lies, the name it goes by, its front matter and
/// its markdown.
pub struct ContentItem<T> {
    pub path: PathBuf,
    pub slug: String,
    pub front_matter: T,
    pub markdown: String,
}

impl BlogPost {
    /// The directory of the blog posts.
    pub fn directory() -> (r: &'static str)
        ensures
            r@ == "crates/www/content/blog"@,
    {
        "crates/www/content/blog"
    }
}

impl DocsGuide {
    /// The directory of the guides.
    pub fn directory() -> (r: &'static str)
        ensures
            r@ == "crates/www/content/docs_guides"@,
    {
        "crates/www/content/docs_guides"
    }
}

/// Where the first JSON value of a text ends, as `serde_json`'s stream
/// deserializer finds it: the offset behind its last byte, or `None` where
/// the text does not open with a JSON value.
pub uninterp spec fn first_value_end_of(bytes: Seq<u8>) -> Option<usize>;

/// Runs `serde_json`'s stream deserializer over the bytes for one value,
/// which it reads without keeping, and asks it for its `byte_offset`.
/// Nothing is claimed of the offset but that it depends on the bytes alone.
#[verifier::external_body]
fn first_value_end(bytes: &[u8]) -> (r: Option<usize>)
    ensures
        r == first_value_end_of(bytes@),
{
    let mut stream = serde_json::Deserializer::from_slice(bytes).into_iter::<serde::de::IgnoredAny>();
    match stream.next() {
        Some(Ok(_)) => Some(stream.byte_offset()),
        _ => None,
    }
}

/// The offset at which a document is cut, if it can be cut there: it lies
/// within the document and between two characters.
pub open spec fn cut_of(bytes: Seq<u8>, end: Option<usize>) -> Option<int> {
    match end {
        Some(at) => if at <= bytes.len() && is_char_boundary(bytes, at as int) {
            Some(at as int)
        } else {
            None
        },
        None => None,
    }
}

/// The two parts are the document cut at `at`: all bytes before it, and all
/// bytes from it on. Without a place to cut there are no parts.
pub open spec fn cuts(bytes: Seq<u8>, at: Option<int>, parts: Option<(&str, &str)>) -> bool {
    match (at, parts) {
        (Some(at), Some((front, rest))) => front.spec_bytes() == bytes.subrange(0, at)
            && rest.spec_bytes() == bytes.subrange(at, bytes.len() as int),
        (None, None) => true,
        _ => false,
    }
}

/// Cuts a document at `end`, where its front matter is said to end: the
/// front matter before, the markdown behind. `None` where there is no such
/// place in the document.
pub fn split_at_value_end<'a>(document: &'a str, end: Option<usize>) -> (r: Option<
    (&'a str, &'a str),
>)
    ensures
        cuts(document.spec_bytes(), cut_of(document.spec_bytes(), end), r),
{
    match end {
        Some(at) => {
            let length = document.as_bytes().len();
            if at <= length && document.is_char_boundary(at) {
                let (front, rest) = document.split_at(at);
                assert(front.spec_bytes() =~= document.spec_bytes().subrange(0, at as int));
                assert(rest.spec_bytes() =~= document.spec_bytes().subrange(
                    at as int,
                    document.spec_bytes().len() as int,
                ));
                Some((front, rest))
            } else {
                None
            }
        },
        None => None,
    }
}

/// Cuts a document into its front matter and its markdown. The front matter
/// is the first JSON value of the document; the markdown is all that follows
/// it. `None` where the document does not open with a JSON value.
pub fn split_front_matter<'a>(document: &'a str) -> (r: Option<(&'a str, &'a str)>)
    ensures
        cuts(
            document.spec_bytes(),
            cut_of(document.spec_bytes(), first_value_end_of(document.spec_bytes())),
            r,
        ),
{
    let end = first_value_end(document.as_bytes());
    split_at_value_end(document, end)
}

impl<T> ContentItem<T> {
    /// Puts a document together from its parts.
    pub fn new(path: PathBuf, slug: String, front_matter: T, markdown: String) -> (item: Self)
        ensures
            item.path == path,
            item.slug == slug,
            item.front_matter == front_matter,
            item.markdown == markdown,
    {
        ContentItem { path, slug, front_matter, markdown }
    }
}

} // verus!
