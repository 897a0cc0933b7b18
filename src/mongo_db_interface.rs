//! The moderation verdicts as the document store keeps them.

use vstd::prelude::*;

verus! {

/// One image of a stored verdict.
#[derive(Clone, Debug, PartialEq)]
pub struct Image {
    pub id: String,
    pub description: String,
    pub url: String,
    /// The image was flagged unsafe.
    pub unrecoverable: Option<bool>,
    /// Text read from the image.
    pub image_ocr_text: Option<String>,
}

/// A stored verdict for one post.
#[derive(Clone, Debug, PartialEq)]
pub struct Post {
    pub id: String,
    pub images: Vec<Image>,
    pub post_url: String,
    pub datetime: String,
    /// The post as a whole was flagged unsafe.
    pub unrecoverable: Option<bool>,
    pub description: Option<String>,
    pub title: Option<String>,
}

/// The text an optional string stands for: empty when absent.
pub open spec fn text_of(o: Option<String>) -> Seq<char> {
    match o {
        Some(s) => s@,
        None => Seq::empty(),
    }
}

/// A copy of the optional string, or the empty string when absent.
pub fn text_or_empty(o: &Option<String>) -> (r: String)
    ensures
        r@ == text_of(*o),
{
    match o {
        Some(s) => s.clone(),
        None => String::new(),
    }
}

/// A flag that is unset counts as unsafe, so that nothing unchecked passes.
pub open spec fn flag_or_unsafe(o: Option<bool>) -> bool {
    match o {
        Some(b) => b,
        None => true,
    }
}

impl Image {
    /// The record as it is written to the store: an unset flag becomes
    /// `true` and a missing text the empty string.
    pub fn with_defaults(self) -> (r: Image)
        ensures
            r.id == self.id,
            r.description == self.description,
            r.url == self.url,
            r.unrecoverable == Some(flag_or_unsafe(self.unrecoverable)),
            r.image_ocr_text matches Some(t) && t@ == text_of(self.image_ocr_text),
    {
        let text = text_or_empty(&self.image_ocr_text);
        Image {
            id: self.id,
            description: self.description,
            url: self.url,
            unrecoverable: Some(
                match self.unrecoverable {
                    Some(b) => b,
                    None => true,
                },
            ),
            image_ocr_text: Some(text),
        }
    }
}

impl Post {
    /// The record as it is written to the store: unset flags become `true`,
    /// missing texts the empty string, for the post and each of its images.
    pub fn with_defaults(self) -> (r: Post)
        ensures
            r.id == self.id,
            r.post_url == self.post_url,
            r.datetime == self.datetime,
            r.unrecoverable == Some(flag_or_unsafe(self.unrecoverable)),
            r.description matches Some(d) && d@ == text_of(self.description),
            r.title matches Some(t) && t@ == text_of(self.title),
            r.images@.len() == self.images@.len(),
            forall|i: int|
                0 <= i < r.images@.len() ==> {
                    let a = #[trigger] r.images@[i];
                    let b = self.images@[i];
                    &&& a.id == b.id
                    &&& a.description == b.description
                    &&& a.url == b.url
                    &&& a.unrecoverable == Some(flag_or_unsafe(b.unrecoverable))
                    &&& a.image_ocr_text matches Some(t) && t@ == text_of(b.image_ocr_text)
                },
    {
        let description = text_or_empty(&self.description);
        let title = text_or_empty(&self.title);
        let ghost src = self.images@;
        let mut rest = self.images;
        let mut rev: Vec<Image> = Vec::new();
        while rest.len() > 0
            invariant
                rest@ == src.take(rest@.len() as int),
                rev@.len() + rest@.len() == src.len(),
                forall|j: int|
                    0 <= j < rev@.len() ==> {
                        let a = #[trigger] rev@[j];
                        let b = src[src.len() - 1 - j];
                        &&& a.id == b.id
                        &&& a.description == b.description
                        &&& a.url == b.url
                        &&& a.unrecoverable == Some(flag_or_unsafe(b.unrecoverable))
                        &&& a.image_ocr_text matches Some(t) && t@ == text_of(b.image_ocr_text)
                    },
            decreases rest@.len(),
        {
            let ghost k = rest@.len() - 1;
            match rest.pop() {
                Some(image) => {
                    assert(image == src[k]);
                    rev.push(image.with_defaults());
                },
                None => {},
            }
            assert(rest@ =~= src.take(k));
        }
        let mut images: Vec<Image> = Vec::new();
        while rev.len() > 0
            invariant
                rev@.len() + images@.len() == src.len(),
                forall|j: int|
                    0 <= j < rev@.len() ==> {
                        let a = #[trigger] rev@[j];
                        let b = src[src.len() - 1 - j];
                        &&& a.id == b.id
                        &&& a.description == b.description
                        &&& a.url == b.url
                        &&& a.unrecoverable == Some(flag_or_unsafe(b.unrecoverable))
                        &&& a.image_ocr_text matches Some(t) && t@ == text_of(b.image_ocr_text)
                    },
                forall|i: int|
                    0 <= i < images@.len() ==> {
                        let a = #[trigger] images@[i];
                        let b = src[i];
                        &&& a.id == b.id
                        &&& a.description == b.description
                        &&& a.url == b.url
                        &&& a.unrecoverable == Some(flag_or_unsafe(b.unrecoverable))
                        &&& a.image_ocr_text matches Some(t) && t@ == text_of(b.image_ocr_text)
                    },
            decreases rev@.len(),
        {
            match rev.pop() {
                Some(image) => {
                    images.push(image);
                },
                None => {},
            }
        }
        Post {
            id: self.id,
            images,
            post_url: self.post_url,
            datetime: self.datetime,
            unrecoverable: Some(
                match self.unrecoverable {
                    Some(b) => b,
                    None => true,
                },
            ),
            description: Some(description),
            title: Some(title),
        }
    }
}

} // verus!
