//! Posts as the gallery API describes them, and the per-post moderation run:
//! screening of title and description, batched image downloads with text
//! extraction, and the threshold rule over the image verdicts.

use vstd::prelude::*;
use crate::batch::BatchScheduler;
use crate::filter::{Filter, chars_of, flags, lower_of};
use crate::mongo_db_interface::{self as store, text_of, text_or_empty};

verus! {

/// Images read at once by default.
pub const DEFAULT_MAX_CONNECTION: usize = 10;

/// The unsafe-image ratio at or above which a post is flagged, as the fraction
/// `UNRECOVERABLE_THRESHOLD_NUM / UNRECOVERABLE_THRESHOLD_DEN` (one in five).
pub const UNRECOVERABLE_THRESHOLD_NUM: u64 = 1;

pub const UNRECOVERABLE_THRESHOLD_DEN: u64 = 5;

/// One image of a post.
#[derive(Clone, Debug, PartialEq)]
pub struct Image {
    pub id: String,
    pub title: Option<String>,
    pub description: Option<String>,
    pub link: String,
}

/// A post as the gallery API returns it.
#[derive(Clone, Debug, PartialEq)]
pub struct Post {
    pub id: String,
    pub title: Option<String>,
    pub description: Option<String>,
    pub datetime: u64,
    pub account_url: Option<String>,
    pub views: u32,
    pub link: String,
    pub is_album: bool,
    pub nsfw: Option<bool>,
    pub images_count: Option<u32>,
    pub is_ad: bool,
    pub images: Vec<Image>,
}

/// A lone image as the API returns it when the id names no album.
#[derive(Clone, Debug, PartialEq)]
pub struct ImageRaw {
    pub id: String,
    pub title: Option<String>,
    pub description: Option<String>,
    pub datetime: u64,
    pub account_url: Option<String>,
    pub views: u32,
    pub link: String,
    pub nsfw: Option<bool>,
    pub is_ad: bool,
}

/// Whether `http::Uri` accepts the string.
pub uninterp spec fn uri_accepts(s: Seq<char>) -> bool;

/// Relies on `<hyper::Uri as FromStr>::from_str` (the `http` crate's URI
/// parser): tells whether the string parses; the empty string never does.
#[verifier::external_body]
fn parses_as_uri(s: &str) -> (r: bool)
    ensures
        r == uri_accepts(s@),
        s@.len() == 0 ==> !r,
{
    s.parse::<hyper::Uri>().is_ok()
}

/// The path component of a URL, when `url::Url` parses it.
pub uninterp spec fn url_path_of(s: Seq<char>) -> Option<Seq<char>>;

/// Relies on `url::Url::parse` and `url::Url::path`: the path of the parsed
/// URL, or `None` when the string is no absolute URL.
#[verifier::external_body]
fn url_path(s: &str) -> (r: Option<String>)
    ensures
        r is Some <==> url_path_of(s@) is Some,
        r matches Some(p) ==> p@ == url_path_of(s@)->0,
{
    match url::Url::parse(s) {
        Ok(u) => Some(u.path().to_string()),
        Err(_) => None,
    }
}

/// A path without its leading slash.
pub open spec fn file_name_of(path: Seq<char>) -> Seq<char> {
    if path.len() > 0 && path[0] == '/' {
        path.drop_first()
    } else {
        path
    }
}

/// The scratch file name for an image path: the path without its leading
/// slash.
pub fn file_name_from_path(path: &str) -> (r: String)
    ensures
        r@ == file_name_of(path@),
{
    let chars = chars_of(path);
    if chars.len() > 0 && chars[0] == '/' {
        string_from_chars(&chars, 1)
    } else {
        string_from_chars(&chars, 0)
    }
}

/// The scratch file name for an image URL: its path without the leading
/// slash, or `None` when the URL does not parse.
pub fn create_filename(url: &str) -> (r: Option<String>)
    ensures
        r is Some <==> url_path_of(url@) is Some,
        r matches Some(f) ==> f@ == file_name_of(url_path_of(url@)->0),
{
    match url_path(url) {
        Some(path) => Some(file_name_from_path(path.as_str())),
        None => None,
    }
}

/// The characters of `chars` from `from` on, as a string.
fn string_from_chars(chars: &Vec<char>, from: usize) -> (r: String)
    requires
        from <= chars@.len(),
    ensures
        r@ == chars@.subrange(from as int, chars@.len() as int),
{
    let mut out = String::new();
    let mut i: usize = from;
    while i < chars.len()
        invariant
            from <= i <= chars@.len(),
            out@ == chars@.subrange(from as int, i as int),
        decreases chars.len() - i,
    {
        push_char(&mut out, chars[i]);
        assert(chars@.subrange(from as int, i + 1) =~= chars@.subrange(from as int, i as int).push(
            chars@[i as int],
        ));
        i += 1;
    }
    out
}

/// Relies on `String::push`: appends one character.
#[verifier::external_body]
fn push_char(s: &mut String, c: char)
    ensures
        final(s)@ == old(s)@.push(c),
{
    s.push(c);
}

/// The part of a link after its last dot; the whole link when it has none.
pub open spec fn extension_of(link: Seq<char>) -> Seq<char>
    decreases link.len(),
{
    if link.len() == 0 {
        link
    } else if link.last() == '.' {
        Seq::empty()
    } else {
        extension_of(link.drop_last()).push(link.last())
    }
}

/// Video and animation extensions: no text is read from such media.
pub open spec fn is_motion_extension(e: Seq<char>) -> bool {
    e == seq!['m', 'p', '4'] || e == seq!['g', 'i', 'f'] || e == seq!['g', 'i', 'f', 'v']
}

/// A still image: eligible for text extraction and counted by the threshold.
pub open spec fn is_still(link: Seq<char>) -> bool {
    !is_motion_extension(extension_of(link))
}

/// The extension of a link, as `extension_of` defines it.
pub fn extension(link: &str) -> (r: String)
    ensures
        r@ == extension_of(link@),
{
    let chars = chars_of(link);
    let n = chars.len();
    let mut j: usize = n;
    assert(chars@.take(n as int) =~= chars@);
    assert(chars@.subrange(n as int, n as int) =~= Seq::<char>::empty());
    while j > 0 && chars[j - 1] != '.'
        invariant
            j <= n,
            n == chars@.len(),
            extension_of(chars@) == extension_of(chars@.take(j as int)) + chars@.subrange(
                j as int,
                n as int,
            ),
        decreases j,
    {
        let ghost t = chars@.take(j as int);
        assert(t.drop_last() =~= chars@.take(j - 1));
        assert(extension_of(t) == extension_of(chars@.take(j - 1)).push(chars@[j - 1]));
        assert(extension_of(chars@.take(j - 1)).push(chars@[j - 1]) + chars@.subrange(
            j as int,
            n as int,
        ) =~= extension_of(chars@.take(j - 1)) + chars@.subrange(j - 1, n as int));
        j -= 1;
    }
    if j > 0 {
        assert(chars@.take(j as int).last() == '.');
    }
    assert(extension_of(chars@.take(j as int)) =~= Seq::<char>::empty());
    assert(extension_of(chars@) =~= chars@.subrange(j as int, n as int));
    string_from_chars(&chars, j)
}

/// Tells whether a link names a still image rather than a video or an
/// animation (`mp4`, `gif`, `gifv`).
pub fn is_still_image(link: &str) -> (r: bool)
    ensures
        r == is_still(link@),
{
    let e = chars_of(extension(link).as_str());
    let motion = (e.len() == 3 && e[0] == 'm' && e[1] == 'p' && e[2] == '4') || (e.len() == 3
        && e[0] == 'g' && e[1] == 'i' && e[2] == 'f') || (e.len() == 4 && e[0] == 'g' && e[1]
        == 'i' && e[2] == 'f' && e[3] == 'v');
    assert(motion ==> is_motion_extension(e@)) by {
        if e.len() == 3 && e[0] == 'm' && e[1] == 'p' && e[2] == '4' {
            assert(e@ =~= seq!['m', 'p', '4']);
        }
        if e.len() == 3 && e[0] == 'g' && e[1] == 'i' && e[2] == 'f' {
            assert(e@ =~= seq!['g', 'i', 'f']);
        }
        if e.len() == 4 && e[0] == 'g' && e[1] == 'i' && e[2] == 'f' && e[3] == 'v' {
            assert(e@ =~= seq!['g', 'i', 'f', 'v']);
        }
    }
    !motion
}

/// An image is unsafe when a term flags its description or the text read
/// from it.
pub open spec fn image_unsafe(terms: Seq<Seq<char>>, image: Image, text: Seq<char>) -> bool {
    flags(terms, lower_of(text_of(image.description))) || flags(terms, lower_of(text))
}

/// Number of unsafe images among the first `n`.
pub open spec fn count_unsafe(
    terms: Seq<Seq<char>>,
    images: Seq<Image>,
    texts: Seq<Seq<char>>,
    n: nat,
) -> nat
    decreases n,
{
    if n == 0 {
        0
    } else {
        count_unsafe(terms, images, texts, (n - 1) as nat) + if image_unsafe(
            terms,
            images[n - 1],
            texts[n - 1],
        ) {
            1nat
        } else {
            0nat
        }
    }
}

/// Number of still images among the first `n`.
pub open spec fn count_still(images: Seq<Image>, n: nat) -> nat
    decreases n,
{
    if n == 0 {
        0
    } else {
        count_still(images, (n - 1) as nat) + if is_still(images[n - 1].link@) {
            1nat
        } else {
            0nat
        }
    }
}

/// The threshold rule: unsafe images make up at least the threshold share of
/// the still images. With no still image the ratio has no value; the post is
/// then flagged exactly when some image is unsafe.
pub open spec fn over_threshold(unsafe_count: nat, eligible: nat) -> bool {
    unsafe_count > 0 && unsafe_count * UNRECOVERABLE_THRESHOLD_DEN >= eligible
        * UNRECOVERABLE_THRESHOLD_NUM
}

/// A term flags the title or the description of the post.
pub open spec fn header_unsafe(terms: Seq<Seq<char>>, post: Post) -> bool {
    flags(terms, lower_of(text_of(post.title))) || flags(terms, lower_of(text_of(post.description)))
}

/// The verdict carries the post's identity, link, time, title and description.
pub open spec fn describes_post(v: store::Post, post: Post, datetime: Seq<char>) -> bool {
    &&& v.id@ == post.id@
    &&& v.post_url@ == post.link@
    &&& v.datetime@ == datetime
    &&& v.description matches Some(d) && d@ == text_of(post.description)
    &&& v.title matches Some(t) && t@ == text_of(post.title)
}

/// The stored image reports `image`, the text read from it, and its flag.
pub open spec fn reports_image(r: store::Image, image: Image, text: Seq<char>, unsafe_: bool) -> bool {
    &&& r.id@ == image.id@
    &&& r.description@ == text_of(image.description)
    &&& r.url@ == image.link@
    &&& r.unrecoverable == Some(unsafe_)
    &&& r.image_ocr_text matches Some(t) && t@ == text
}

/// The verdict of a post screened out by its title or description: flagged,
/// with no image.
pub open spec fn is_screened_verdict(v: store::Post, post: Post, datetime: Seq<char>) -> bool {
    &&& describes_post(v, post, datetime)
    &&& v.images@.len() == 0
    &&& v.unrecoverable == Some(true)
}

/// The verdict of a post whose images were read: one entry per image in
/// order, each flagged on its own, and the post flagged by the threshold rule.
pub open spec fn is_full_verdict(
    v: store::Post,
    terms: Seq<Seq<char>>,
    post: Post,
    texts: Seq<Seq<char>>,
    datetime: Seq<char>,
) -> bool {
    let n = post.images@.len();
    &&& describes_post(v, post, datetime)
    &&& v.images@.len() == n
    &&& forall|i: int|
        0 <= i < n ==> reports_image(
            #[trigger] v.images@[i],
            post.images@[i],
            texts[i],
            image_unsafe(terms, post.images@[i], texts[i]),
        )
    &&& v.unrecoverable == Some(
        over_threshold(count_unsafe(terms, post.images@, texts, n), count_still(post.images@, n)),
    )
}

/// The threshold rule on counts, as `over_threshold` states it.
pub fn exceeds_threshold(unsafe_count: usize, eligible: usize) -> (r: bool)
    ensures
        r == over_threshold(unsafe_count as nat, eligible as nat),
{
    unsafe_count > 0 && (unsafe_count as u128) * (UNRECOVERABLE_THRESHOLD_DEN as u128) >= (
    eligible as u128) * (UNRECOVERABLE_THRESHOLD_NUM as u128)
}

/// The verdict fields shared by both kinds of verdict.
fn header_verdict(post: &Post, datetime: &String, unsafe_: bool) -> (r: store::Post)
    ensures
        describes_post(r, *post, datetime@),
        r.images@.len() == 0,
        r.unrecoverable == Some(unsafe_),
{
    store::Post {
        id: post.id.clone(),
        images: Vec::new(),
        post_url: post.link.clone(),
        datetime: datetime.clone(),
        unrecoverable: Some(unsafe_),
        description: Some(text_or_empty(&post.description)),
        title: Some(text_or_empty(&post.title)),
    }
}

/// The verdict of a post screened out by its title or description.
pub fn screened_verdict(post: &Post, datetime: &String) -> (r: store::Post)
    ensures
        is_screened_verdict(r, *post, datetime@),
{
    header_verdict(post, datetime, true)
}

/// Judges every image of `post` from its description and the text read from
/// it (`texts[i]` for image `i`), and the post by the threshold rule.
pub fn assemble_verdict(filter: &Filter, post: &Post, texts: &Vec<String>, datetime: &String) -> (r:
    store::Post)
    requires
        texts@.len() == post.images@.len(),
    ensures
        is_full_verdict(r, filter@, *post, texts@.map_values(|t: String| t@), datetime@),
{
    let ghost tv = texts@.map_values(|t: String| t@);
    let ghost terms = filter@;
    let mut v = header_verdict(post, datetime, false);
    let mut unsafe_count: usize = 0;
    let mut eligible: usize = 0;
    let n = post.images.len();
    let mut i: usize = 0;
    while i < n
        invariant
            n == post.images@.len(),
            texts@.len() == n,
            tv == texts@.map_values(|t: String| t@),
            terms == filter@,
            i <= n,
            unsafe_count <= i,
            eligible <= i,
            unsafe_count == count_unsafe(terms, post.images@, tv, i as nat),
            eligible == count_still(post.images@, i as nat),
            describes_post(v, *post, datetime@),
            v.images@.len() == i,
            forall|k: int|
                0 <= k < i ==> reports_image(
                    #[trigger] v.images@[k],
                    post.images@[k],
                    tv[k],
                    image_unsafe(terms, post.images@[k], tv[k]),
                ),
        decreases n - i,
    {
        let image = &post.images[i];
        let text = &texts[i];
        let description = text_or_empty(&image.description);
        let flagged = filter.is_unsafe(description.as_str()) || filter.is_unsafe(text.as_str());
        if flagged {
            unsafe_count += 1;
        }
        if is_still_image(image.link.as_str()) {
            eligible += 1;
        }
        v.images.push(
            store::Image {
                id: image.id.clone(),
                description,
                url: image.link.clone(),
                unrecoverable: Some(flagged),
                image_ocr_text: Some(text.clone()),
            },
        );
        i += 1;
    }
    v.unrecoverable = Some(exceeds_threshold(unsafe_count, eligible));
    v
}

/// What to do with one image of a download group.
#[derive(Debug, PartialEq)]
pub enum ImageTask {
    /// Download the image from this URL and read its text.
    Fetch(String),
    /// A video or an animation: read nothing; its text is empty.
    Skip,
}

/// The task for `image`: fetch a still image from its link, skip the rest.
pub open spec fn is_task_for(t: ImageTask, image: Image) -> bool {
    if is_still(image.link@) {
        t matches ImageTask::Fetch(u) && u@ == image.link@
    } else {
        t is Skip
    }
}

/// The task for one image.
pub fn image_task(image: &Image) -> (r: ImageTask)
    ensures
        is_task_for(r, *image),
{
    if is_still_image(image.link.as_str()) {
        ImageTask::Fetch(image.link.clone())
    } else {
        ImageTask::Skip
    }
}

/// What the caller does next for a moderation run.
#[derive(Debug, PartialEq)]
pub enum Step {
    /// Run these tasks, for images `start ..` of the post, all at once, and
    /// hand back the text of each in the same order (empty when reading
    /// failed or the task was `Skip`).
    Download { start: usize, tasks: Vec<ImageTask> },
    /// The run is over: persist the verdict and return it, removing the
    /// post's scratch directory first when `remove_scratch` is set.
    Finish { verdict: store::Post, remove_scratch: bool },
}

/// Why a moderation run stops without a verdict.
#[derive(Debug, Clone, Copy, PartialEq, Eq)]
pub enum ModerationError {
    /// An image link is not a valid URI.
    InvalidLink,
    /// The texts handed back do not match the download group in flight.
    CountMismatch,
}

/// The moderation of one post, driven step by step by the caller, who does
/// the downloads and text extraction that each step asks for.
pub struct Moderation {
    post: Post,
    datetime: String,
    scheduler: BatchScheduler<String>,
    awaiting: bool,
    finished: bool,
}

impl Moderation {
    pub closed spec fn post(&self) -> Post {
        self.post
    }

    pub closed spec fn datetime(&self) -> Seq<char> {
        self.datetime@
    }

    pub closed spec fn max_conn(&self) -> nat {
        self.scheduler.max_concurrent()
    }

    /// First image of the download group asked for last.
    pub closed spec fn group_start(&self) -> nat {
        self.scheduler.group_start()
    }

    /// Images asked for so far.
    pub closed spec fn launched(&self) -> nat {
        self.scheduler.launched()
    }

    /// The text of each image, `None` until it is handed back.
    pub closed spec fn slots(&self) -> Seq<Option<String>> {
        self.scheduler.slots()
    }

    /// A download group is in flight.
    pub closed spec fn awaiting(&self) -> bool {
        self.awaiting
    }

    pub closed spec fn finished(&self) -> bool {
        self.finished
    }

    pub closed spec fn wf(&self) -> bool {
        &&& self.scheduler.wf()
        &&& !self.scheduler.cancelled()
        &&& self.scheduler.total() == self.post.images@.len()
        &&& !self.awaiting ==> self.scheduler.group_done()
        &&& self.awaiting ==> !self.finished
    }

    /// The texts handed back so far, the empty text where none was.
    pub open spec fn texts(&self) -> Seq<Seq<char>> {
        self.slots().map_values(|o: Option<String>| text_of(o))
    }

    /// Where the group that starts at `start` ends.
    pub open spec fn group_end(&self, start: nat) -> nat {
        if start + self.max_conn() <= self.post().images@.len() {
            start + self.max_conn()
        } else {
            self.post().images@.len()
        }
    }

    /// `step` is what the run asks for in its present state.
    pub open spec fn step_ok(&self, terms: Seq<Seq<char>>, step: Step) -> bool {
        match step {
            Step::Download { start, tasks } => {
                &&& self.awaiting()
                &&& !self.finished()
                &&& start == self.group_start()
                &&& self.launched() == self.group_end(start as nat)
                &&& start < self.launched()
                &&& tasks@.len() == self.launched() - start
                &&& forall|j: int|
                    0 <= j < tasks@.len() ==> is_task_for(
                        #[trigger] tasks@[j],
                        self.post().images@[start + j],
                    )
            },
            Step::Finish { verdict, remove_scratch } => {
                &&& self.finished()
                &&& !self.awaiting()
                &&& remove_scratch
                &&& self.launched() == self.post().images@.len()
                &&& forall|i: int| 0 <= i < self.slots().len() ==> self.slots()[i] is Some
                &&& is_full_verdict(verdict, terms, self.post(), self.texts(), self.datetime())
            },
        }
    }

    /// Starts the moderation of `post`, reading at most `max_conn` images at
    /// once. A post whose title or description holds a forbidden term is
    /// flagged at once, and none of its images is downloaded. Otherwise every
    /// image link must be a valid URI, and the first download group is asked
    /// for (or, for a post without images, the verdict is given).
    pub fn start(filter: &Filter, post: Post, datetime: String, max_conn: usize) -> (r: Result<
        (Moderation, Step),
        ModerationError,
    >)
        requires
            max_conn >= 1,
        ensures
            header_unsafe(filter@, post) ==> (r matches Ok((m, step)) && m.finished()
                && !m.awaiting() && (step matches Step::Finish { verdict, remove_scratch }
                && !remove_scratch && is_screened_verdict(verdict, post, datetime@))),
            !header_unsafe(filter@, post) && (exists|i: int|
                0 <= i < post.images@.len() && !uri_accepts(#[trigger] post.images@[i].link@))
                ==> r matches Err(ModerationError::InvalidLink),
            !header_unsafe(filter@, post) && (forall|i: int|
                0 <= i < post.images@.len() ==> uri_accepts(#[trigger] post.images@[i].link@))
                ==> (r matches Ok((m, step)) && m.wf() && m.post() == post && m.datetime()
                == datetime@ && m.max_conn() == max_conn && m.group_start() == 0 && (forall|i: int|
                0 <= i < post.images@.len() && i >= m.launched() ==> m.slots()[i] is None)
                && m.step_ok(filter@, step)),
            !header_unsafe(filter@, post) && post.images@.len() == 0 ==> (r matches Ok((m, step))
                && step is Finish),
            !header_unsafe(filter@, post) && post.images@.len() > 0 && (forall|i: int|
                0 <= i < post.images@.len() ==> uri_accepts(#[trigger] post.images@[i].link@))
                ==> (r matches Ok((m, step)) && (step matches Step::Download { start, tasks }
                && start == 0)),
    {
        let title = text_or_empty(&post.title);
        let description = text_or_empty(&post.description);
        if filter.is_unsafe(title.as_str()) || filter.is_unsafe(description.as_str()) {
            let verdict = screened_verdict(&post, &datetime);
            let m = Moderation {
                post,
                datetime,
                scheduler: BatchScheduler::new(0, 1),
                awaiting: false,
                finished: true,
            };
            return Ok((m, Step::Finish { verdict, remove_scratch: false }));
        }
        let n = post.images.len();
        let mut i: usize = 0;
        while i < n
            invariant
                n == post.images@.len(),
                i <= n,
                !header_unsafe(filter@, post),
                forall|k: int| 0 <= k < i ==> uri_accepts(#[trigger] post.images@[k].link@),
            decreases n - i,
        {
            if !parses_as_uri(post.images[i].link.as_str()) {
                return Err(ModerationError::InvalidLink);
            }
            i += 1;
        }
        let mut m = Moderation {
            post,
            datetime,
            scheduler: BatchScheduler::new(n, max_conn),
            awaiting: false,
            finished: false,
        };
        let step = m.advance(filter);
        Ok((m, step))
    }

    /// Hands back the texts of the download group in flight, in the order of
    /// its tasks, and returns the next step: the next group, or the verdict
    /// once every image has its text. Texts that do not match the group in
    /// flight are refused and leave the run as it was.
    pub fn on_batch(&mut self, filter: &Filter, texts: Vec<String>) -> (r: Result<
        Step,
        ModerationError,
    >)
        requires
            old(self).wf(),
        ensures
            !old(self).awaiting() || texts@.len() != old(self).launched() - old(self).group_start()
                ==> (r matches Err(ModerationError::CountMismatch) && *final(self) == *old(self)),
            old(self).awaiting() && texts@.len() == old(self).launched() - old(self).group_start()
                ==> (r matches Ok(step) && final(self).wf() && final(self).post() == old(self).post()
                && final(self).datetime() == old(self).datetime() && final(self).max_conn() == old(
                self).max_conn() && (forall|
                i: int|
                0 <= i < old(self).slots().len() ==> #[trigger] final(self).slots()[i] == if old(
                    self,
                ).group_start() <= i < old(self).launched() {
                    Some(texts@[i - old(self).group_start()])
                } else {
                    old(self).slots()[i]
                }) && final(self).step_ok(filter@, step)),
            old(self).awaiting() && texts@.len() == old(self).launched() - old(self).group_start()
                && old(self).launched() == old(self).post().images@.len() ==> (r matches Ok(s)
                && s is Finish),
            old(self).awaiting() && texts@.len() == old(self).launched() - old(self).group_start()
                && old(self).launched() < old(self).post().images@.len() ==> (r matches Ok(s) && (
            s matches Step::Download { start, tasks } && start == old(self).launched())),
    {
        if !self.awaiting || texts.len() != self.group_len() {
            return Err(ModerationError::CountMismatch);
        }
        let ghost before = self.scheduler.slots();
        let start = self.scheduler.group_start_index();
        let mut texts = texts;
        let ghost given = texts@;
        let ghost len = texts@.len();
        while texts.len() > 0
            invariant
                self.scheduler.wf(),
                !self.scheduler.cancelled(),
                self.scheduler.total() == self.post.images@.len(),
                self.awaiting,
                !self.finished,
                self.scheduler.group_start() == start,
                self.scheduler.launched() == start + len,
                self.scheduler.max_concurrent() == old(self).max_conn(),
                self.post == old(self).post(),
                self.datetime@ == old(self).datetime(),
                before == old(self).slots(),
                start == old(self).group_start(),
                len == old(self).launched() - old(self).group_start(),
                texts@.len() <= len,
                texts@ == given.take(texts@.len() as int),
                given.len() == len,
                self.scheduler.slots().len() == before.len(),
                forall|i: int|
                    0 <= i < before.len() ==> #[trigger] self.scheduler.slots()[i] == if start
                        + texts@.len() <= i < start + len {
                        Some(given[i - start])
                    } else {
                        before[i]
                    },
            decreases texts@.len(),
        {
            let k = texts.len() - 1;
            match texts.pop() {
                Some(t) => {
                    self.scheduler.complete(start + k, t);
                },
                None => {},
            }
            assert(texts@ =~= given.take(k as int));
        }
        assert(self.scheduler.group_done());
        self.awaiting = false;
        Ok(self.advance(filter))
    }

    /// Size of the download group in flight, or of the one asked for last.
    fn group_len(&self) -> (r: usize)
        requires
            self.wf(),
        ensures
            r == self.launched() - self.group_start(),
    {
        self.scheduler.launched_count() - self.scheduler.group_start_index()
    }

    /// Asks for the next download group, or gives the verdict when every
    /// image has its text.
    fn advance(&mut self, filter: &Filter) -> (step: Step)
        requires
            old(self).wf(),
            !old(self).awaiting(),
            !old(self).finished(),
        ensures
            final(self).wf(),
            final(self).post() == old(self).post(),
            final(self).datetime() == old(self).datetime(),
            final(self).max_conn() == old(self).max_conn(),
            final(self).slots() == old(self).slots(),
            old(self).launched() < old(self).post().images@.len() ==> final(self).group_start()
                == old(self).launched(),
            old(self).launched() == old(self).post().images@.len() ==> final(self).group_start()
                == old(self).group_start(),
            final(self).step_ok(filter@, step),
            old(self).launched() == old(self).post().images@.len() ==> step is Finish,
            old(self).launched() < old(self).post().images@.len() ==> (step matches Step::Download {
                start,
                tasks,
            } && start == old(self).launched()),
    {
        match self.scheduler.next_group() {
            Some((start, end)) => {
                let mut tasks: Vec<ImageTask> = Vec::new();
                let mut j: usize = start;
                while j < end
                    invariant
                        start <= j <= end,
                        end <= self.post.images@.len(),
                        tasks@.len() == j - start,
                        forall|k: int|
                            0 <= k < tasks@.len() ==> is_task_for(
                                #[trigger] tasks@[k],
                                self.post.images@[start + k],
                            ),
                    decreases end - j,
                {
                    tasks.push(image_task(&self.post.images[j]));
                    j += 1;
                }
                self.awaiting = true;
                Step::Download { start, tasks }
            },
            None => {
                let n = self.post.images.len();
                let mut texts: Vec<String> = Vec::new();
                let mut i: usize = 0;
                while i < n
                    invariant
                        self.scheduler.wf(),
                        self.scheduler.total() == n,
                        n == self.post.images@.len(),
                        self.scheduler.launched() == n,
                        self.scheduler.group_done(),
                        i <= n,
                        texts@.len() == i,
                        forall|k: int|
                            0 <= k < i ==> Some(#[trigger] texts@[k]) == self.scheduler.slots()[k],
                    decreases n - i,
                {
                    match self.scheduler.slot(i) {
                        Some(t) => {
                            texts.push(t.clone());
                        },
                        None => {
                            assert(false);
                        },
                    }
                    i += 1;
                }
                assert(texts@.map_values(|t: String| t@) =~= self.texts());
                self.finished = true;
                let verdict = assemble_verdict(filter, &self.post, &texts, &self.datetime);
                Step::Finish { verdict, remove_scratch: true }
            },
        }
    }
}

/// The single-image post for a lone image: one image, its gallery page as
/// the post link.
pub open spec fn is_post_of_image(p: Post, raw: ImageRaw) -> bool {
    &&& p.id == raw.id
    &&& p.title == raw.title
    &&& p.description == raw.description
    &&& p.datetime == raw.datetime
    &&& p.account_url == raw.account_url
    &&& p.views == raw.views
    &&& p.link@ == "https://imgur.com/gallery/"@ + raw.id@
    &&& !p.is_album
    &&& p.nsfw == raw.nsfw
    &&& p.images_count == Some(1u32)
    &&& p.is_ad == raw.is_ad
    &&& p.images@.len() == 1
    &&& p.images@[0].id == raw.id
    &&& p.images@[0].title == raw.title
    &&& p.images@[0].description == raw.description
    &&& p.images@[0].link == raw.link
}

/// `prefix` followed by `rest`, as a new string.
fn joined(prefix: &str, rest: &str) -> (r: String)
    ensures
        r@ == prefix@ + rest@,
{
    let mut out = prefix.to_owned();
    out.append(rest);
    out
}

impl ImageRaw {
    /// The post that a lone image stands for.
    pub fn into_post(self) -> (r: Post)
        ensures
            is_post_of_image(r, self),
    {
        let link = joined("https://imgur.com/gallery/", self.id.as_str());
        let mut images: Vec<Image> = Vec::new();
        images.push(
            Image {
                id: self.id.clone(),
                title: self.title.clone(),
                description: self.description.clone(),
                link: self.link,
            },
        );
        let r = Post {
            id: self.id,
            title: self.title,
            description: self.description,
            datetime: self.datetime,
            account_url: self.account_url,
            views: self.views,
            link,
            is_album: false,
            nsfw: self.nsfw,
            images_count: Some(1),
            is_ad: self.is_ad,
            images,
        };
        r
    }
}

/// What to do with the answer to an album lookup.
#[derive(Debug, Clone, Copy, PartialEq, Eq)]
pub enum AlbumStep {
    /// The album was found: read the post from the body.
    Parse,
    /// No album has this id: look it up as a lone image.
    TryImage,
    /// The API failed: report the body as the error.
    Fail,
}

/// The step for an album lookup answered with HTTP status `status`.
pub fn album_step(status: u16) -> (r: AlbumStep)
    ensures
        status == 200 <==> r is Parse,
        status == 404 <==> r is TryImage,
        status != 200 && status != 404 <==> r is Fail,
{
    if status == 404 {
        AlbumStep::TryImage
    } else if status == 200 {
        AlbumStep::Parse
    } else {
        AlbumStep::Fail
    }
}

/// Moderates the images of one post: knows the post id, the post's scratch
/// directory, and how many images it reads at once.
pub struct Downloader {
    post_id: String,
    save_path: String,
    max_conn: usize,
}

impl Downloader {
    /// At least one image is read at a time.
    #[verifier::type_invariant]
    spec fn reads_some(&self) -> bool {
        self.max_conn >= 1
    }

    pub closed spec fn spec_post_id(&self) -> Seq<char> {
        self.post_id@
    }

    pub closed spec fn spec_save_path(&self) -> Seq<char> {
        self.save_path@
    }

    pub closed spec fn spec_max_conn(&self) -> nat {
        self.max_conn as nat
    }

    /// A downloader for the post `post_id`, whose scratch directory is named
    /// after the post. The id must be a valid URI component.
    pub fn new(post_id: &str) -> (r: Downloader)
        requires
            uri_accepts(post_id@),
        ensures
            r.spec_post_id() == post_id@,
            r.spec_save_path() == post_id@,
            r.spec_max_conn() == DEFAULT_MAX_CONNECTION,
    {
        Downloader {
            post_id: post_id.to_owned(),
            save_path: post_id.to_owned(),
            max_conn: DEFAULT_MAX_CONNECTION,
        }
    }

    /// A downloader for `post_id` when it is a valid URI component, as
    /// `new` builds it; `None` otherwise.
    pub fn for_post(post_id: &str) -> (r: Option<Downloader>)
        ensures
            r is Some <==> uri_accepts(post_id@),
            r matches Some(d) ==> d.spec_post_id() == post_id@ && d.spec_save_path() == post_id@
                && d.spec_max_conn() == DEFAULT_MAX_CONNECTION,
    {
        if parses_as_uri(post_id) {
            Some(Downloader::new(post_id))
        } else {
            None
        }
    }

    pub fn post_id(&self) -> (r: &str)
        ensures
            r@ == self.spec_post_id(),
    {
        self.post_id.as_str()
    }

    /// The scratch directory of the post.
    pub fn save_path(&self) -> (r: &str)
        ensures
            r@ == self.spec_save_path(),
    {
        self.save_path.as_str()
    }

    pub fn max_conn(&self) -> (r: usize)
        ensures
            r == self.spec_max_conn(),
            r >= 1,
    {
        proof {
            use_type_invariant(self);
        }
        self.max_conn
    }

    /// The API address of the post looked up as an album.
    pub fn album_url(&self) -> (r: String)
        ensures
            r@ == "https://api.imgur.com/3/album/"@ + self.spec_post_id(),
    {
        joined("https://api.imgur.com/3/album/", self.post_id.as_str())
    }

    /// The API address of the post looked up as a lone image.
    pub fn image_url(&self) -> (r: String)
        ensures
            r@ == "https://api.imgur.com/3/image/"@ + self.spec_post_id(),
    {
        joined("https://api.imgur.com/3/image/", self.post_id.as_str())
    }

    /// Starts the moderation of `post` with this downloader's concurrency,
    /// as `Moderation::start` describes.
    pub fn download_post_images(&self, filter: &Filter, post: Post, datetime: String) -> (r:
        Result<(Moderation, Step), ModerationError>)
        ensures
            header_unsafe(filter@, post) ==> (r matches Ok((m, step)) && m.finished()
                && !m.awaiting() && (step matches Step::Finish { verdict, remove_scratch }
                && !remove_scratch && is_screened_verdict(verdict, post, datetime@))),
            !header_unsafe(filter@, post) && (exists|i: int|
                0 <= i < post.images@.len() && !uri_accepts(#[trigger] post.images@[i].link@))
                ==> r matches Err(ModerationError::InvalidLink),
            !header_unsafe(filter@, post) && (forall|i: int|
                0 <= i < post.images@.len() ==> uri_accepts(#[trigger] post.images@[i].link@))
                ==> (r matches Ok((m, step)) && m.wf() && m.post() == post && m.datetime()
                == datetime@ && m.max_conn() == self.spec_max_conn() && m.group_start() == 0
                && m.step_ok(filter@, step)),
            !header_unsafe(filter@, post) && post.images@.len() == 0 ==> (r matches Ok((m, step))
                && step is Finish),
            !header_unsafe(filter@, post) && post.images@.len() > 0 && (forall|i: int|
                0 <= i < post.images@.len() ==> uri_accepts(#[trigger] post.images@[i].link@))
                ==> (r matches Ok((m, step)) && (step matches Step::Download { start, tasks }
                && start == 0)),
    {
        proof {
            use_type_invariant(self);
        }
        Moderation::start(filter, post, datetime, self.max_conn)
    }
}

} // verus!
