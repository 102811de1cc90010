use vstd::prelude::*;
use vstd::utf8::is_ascii_chars;
use chrono::NaiveDateTime;

use crate::auth::UserToken;
use crate::forms::{FieldError, FormErrors, spec_error_if};
use crate::models::{NewPost, Post, User};
use crate::pagination::{PaginationContext, PaginationParams};

verus! {

/// What the slug crate makes of `s`: a lowercase ASCII slug.
pub uninterp spec fn spec_slugify(s: Seq<char>) -> Seq<char>;

/// A slug as the slug crate documents its output: only `a`-`z`, `0`-`9` and
/// `-`, never two `-` in a row, never a `-` at either end.
pub open spec fn is_slug(s: Seq<char>) -> bool {
    &&& forall|i: int|
        0 <= i < s.len() ==> (('a' <= #[trigger] s[i] <= 'z') || ('0' <= s[i] <= '9') || s[i] == '-')
    &&& forall|i: int| 0 <= i < s.len() - 1 ==> !(#[trigger] s[i] == '-' && s[i + 1] == '-')
    &&& s.len() > 0 ==> s[0] != '-' && s[s.len() - 1] != '-'
}

/// One step of the slug crate over an ASCII character, on the slug so far
/// and whether it ends in (or starts with, when empty) a dash: letters and
/// digits are kept, upper case lowered; a run of anything else becomes one
/// `-`.
pub open spec fn slug_step(acc: (Seq<char>, bool), c: char) -> (Seq<char>, bool) {
    if ('a' <= c <= 'z') || ('0' <= c <= '9') {
        (acc.0.push(c), false)
    } else if 'A' <= c <= 'Z' {
        (acc.0.push(((c as int) + 32) as char), false)
    } else if !acc.1 {
        (acc.0.push('-'), true)
    } else {
        acc
    }
}

/// The slug crate's scan over the characters of `s`.
pub open spec fn slug_scan(s: Seq<char>) -> (Seq<char>, bool)
    decreases s.len(),
{
    if s.len() == 0 {
        (Seq::empty(), true)
    } else {
        slug_step(slug_scan(s.drop_last()), s.last())
    }
}

/// The slug of an ASCII text: the scan, without a trailing `-`.
pub open spec fn spec_ascii_slug(s: Seq<char>) -> Seq<char> {
    let r = slug_scan(s).0;
    if r.len() > 0 && r.last() == '-' {
        r.drop_last()
    } else {
        r
    }
}

/// What the scan has built so far is slug-shaped, except that it may end
/// in one `-`; the flag says whether it is empty or ends in `-`.
proof fn lemma_slug_scan_shape(s: Seq<char>)
    ensures
        ({
            let (r, dash) = slug_scan(s);
            &&& forall|i: int|
                0 <= i < r.len() ==> (('a' <= #[trigger] r[i] <= 'z') || ('0' <= r[i] <= '9') || r[i]
                    == '-')
            &&& forall|i: int| 0 <= i < r.len() - 1 ==> !(#[trigger] r[i] == '-' && r[i + 1] == '-')
            &&& r.len() > 0 ==> r[0] != '-'
            &&& dash <==> (r.len() == 0 || r[r.len() - 1] == '-')
        }),
    decreases s.len(),
{
    if s.len() > 0 {
        lemma_slug_scan_shape(s.drop_last());
        let (r0, d0) = slug_scan(s.drop_last());
        let c = s.last();
        if 'A' <= c <= 'Z' {
            assert('a' <= ((c as int) + 32) as char <= 'z');
        }
        let (r, dash) = slug_scan(s);
        assert forall|i: int| 0 <= i < r.len() - 1 implies !(#[trigger] r[i] == '-' && r[i + 1] == '-') by {
            if i + 1 == r.len() - 1 && r.len() > r0.len() {
                assert(r[i] == r0[i]);
            } else if r.len() > r0.len() {
                assert(r[i] == r0[i] && r[i + 1] == r0[i + 1]);
            }
        }
        if r.len() > r0.len() && r0.len() > 0 {
            assert(r[0] == r0[0]);
        }
    }
}

/// The ASCII slug that the slug crate's source computes has the shape its
/// documentation promises: the two things said of `slugify` agree.
pub proof fn lemma_ascii_slug_is_slug(s: Seq<char>)
    ensures
        is_slug(spec_ascii_slug(s)),
{
    lemma_slug_scan_shape(s);
    let r = slug_scan(s).0;
    let out = spec_ascii_slug(s);
    if r.len() > 0 && r.last() == '-' {
        assert forall|i: int| 0 <= i < out.len() implies (('a' <= #[trigger] out[i] <= 'z') || ('0'
            <= out[i] <= '9') || out[i] == '-') by {
            assert(out[i] == r[i]);
        }
        assert forall|i: int| 0 <= i < out.len() - 1 implies !(#[trigger] out[i] == '-' && out[i + 1]
            == '-') by {
            assert(out[i] == r[i] && out[i + 1] == r[i + 1]);
        }
        if out.len() > 0 {
            assert(out[0] == r[0]);
            assert(out[out.len() - 1] == r[r.len() - 2]);
            assert(r[r.len() - 1] == '-');
        }
    }
}

/// Makes a URL slug with `slug::slugify`. Claimed: the result is
/// `spec_slugify(s@)`, a function of the text alone; it has the shape that
/// the crate's documentation promises (`is_slug`); and for an ASCII text it
/// is `spec_ascii_slug(s@)`, as the crate's source computes it. How
/// non-ASCII characters are transliterated (deunicode) is not stated.
#[verifier::external_body]
pub(crate) fn slugify(s: &str) -> (slug: String)
    ensures
        slug@ == spec_slugify(s@),
        is_slug(slug@),
        is_ascii_chars(s@) ==> slug@ == spec_ascii_slug(s@),
{
    slug::slugify(s)
}

/// The form used to write or edit a post.
pub struct PostForm {
    pub title: String,
    pub body: String,
    pub published: bool,
}

impl PostForm {
    /// The errors of a post form: an empty title, an empty body.
    pub open spec fn spec_errors(&self) -> Seq<FieldError> {
        spec_error_if(self.title@.len() == 0, FieldError::TitleEmpty)
            + spec_error_if(self.body@.len() == 0, FieldError::BodyEmpty)
    }

    /// Checks that the title and the body are not empty.
    pub fn validate(&self) -> (r: Result<&PostForm, FormErrors>)
        ensures
            r is Ok <==> self.spec_errors().len() == 0,
            r is Ok <==> (self.title@.len() > 0 && self.body@.len() > 0),
            r matches Err(e) ==> (e@.contains(FieldError::BodyEmpty) <==> self.body@.len() == 0),
            r matches Err(e) ==> (e@.contains(FieldError::TitleEmpty) <==> self.title@.len() == 0),
            r matches Ok(f) ==> f == self,
            r matches Err(e) ==> e@ == self.spec_errors(),
    {
        let mut errors = FormErrors::new();
        errors.add_if(self.title.as_str().is_empty(), FieldError::TitleEmpty);
        errors.add_if(self.body.as_str().is_empty(), FieldError::BodyEmpty);
        proof {
            lemma_post_form_errors(*self);
        }
        if !errors.is_empty() {
            Err(errors)
        } else {
            Ok(self)
        }
    }
}

/// A post form is refused for exactly its empty fields, whether or not the
/// post is to be published: `TitleEmpty` when the title is empty,
/// `BodyEmpty` when the body is empty, the title's error first, and no
/// other error.
pub proof fn lemma_post_form_errors(form: PostForm)
    ensures
        form.spec_errors().contains(FieldError::TitleEmpty) <==> form.title@.len() == 0,
        form.spec_errors().contains(FieldError::BodyEmpty) <==> form.body@.len() == 0,
        forall|e: FieldError|
            #[trigger] form.spec_errors().contains(e) ==> e == FieldError::TitleEmpty || e
                == FieldError::BodyEmpty,
        form.spec_errors().len() == (if form.title@.len() == 0 { 1int } else { 0 }) + (if form.body@.len()
            == 0 { 1int } else { 0 }),
        form.title@.len() == 0 ==> form.spec_errors()[0] == FieldError::TitleEmpty,
{
    let errs = form.spec_errors();
    if form.title@.len() == 0 {
        assert(errs[0] == FieldError::TitleEmpty);
    }
    if form.body@.len() == 0 {
        assert(errs[errs.len() - 1] == FieldError::BodyEmpty);
    }
    assert forall|e: FieldError| #[trigger] errs.contains(e) implies e == FieldError::TitleEmpty || e
        == FieldError::BodyEmpty by {
        let i = choose|i: int| 0 <= i < errs.len() && errs[i] == e;
    }
    if form.title@.len() > 0 {
        if errs.contains(FieldError::TitleEmpty) {
            let i = choose|i: int| 0 <= i < errs.len() && errs[i] == FieldError::TitleEmpty;
        }
    }
    if form.body@.len() > 0 {
        if errs.contains(FieldError::BodyEmpty) {
            let i = choose|i: int| 0 <= i < errs.len() && errs[i] == FieldError::BodyEmpty;
        }
    }
}

/// Whether a post is to be published plays no part in checking its form.
pub proof fn lemma_post_form_errors_ignore_publication(a: PostForm, b: PostForm)
    requires
        a.title@ == b.title@,
        a.body@ == b.body@,
    ensures
        a.spec_errors() == b.spec_errors(),
{
    lemma_post_form_errors(a);
    lemma_post_form_errors(b);
}

/// Filter of the post list: only published posts, only drafts, or all.
pub struct ListParams {
    pub published: Option<bool>,
}

impl Default for ListParams {
    /// No filter: every post is listed.
    fn default() -> (p: ListParams)
        ensures
            p.published is None,
    {
        ListParams { published: None }
    }
}

/// Where to send the browser after a post was saved.
pub enum PostLocation {
    /// The public page of a published post, `/post/<slug>`.
    BySlug(String),
    /// The page of a draft, `/post/<id>`.
    ById(i32),
}

/// A published post is shown under its slug, a draft under its id.
pub fn post_location(post: &Post) -> (loc: PostLocation)
    ensures
        post.published ==> (loc matches PostLocation::BySlug(s) && s@ == post.slug@),
        !post.published ==> loc == PostLocation::ById(post.id),
{
    if post.published {
        PostLocation::BySlug(post.slug.clone())
    } else {
        PostLocation::ById(post.id)
    }
}

/// The post that a valid form creates, written by `user` at `now`: its slug
/// comes from the title, and a published post is published `now`.
pub fn new_post(form: &PostForm, user: &UserToken, now: NaiveDateTime) -> (p: NewPost)
    ensures
        p.user_id == user.id,
        p.title@ == form.title@,
        p.slug@ == spec_slugify(form.title@),
        p.body@ == form.body@,
        p.published == form.published,
        p.creation_date == now,
        p.publication_date == (if form.published { Some(now) } else { None }),
{
    NewPost {
        user_id: user.id,
        title: form.title.clone(),
        slug: slugify(form.title.as_str()),
        body: form.body.clone(),
        published: form.published,
        creation_date: now,
        publication_date: if form.published { Some(now) } else { None },
    }
}

/// The publication date after an edit: a post keeps the date it was first
/// published at; a post published for the first time gets `now`.
pub open spec fn spec_publication_after_edit(
    previous: Option<NaiveDateTime>,
    published: bool,
    now: NaiveDateTime,
) -> Option<NaiveDateTime> {
    match previous {
        Some(date) => Some(date),
        None => if published { Some(now) } else { None },
    }
}

/// The post `post_id` as edited through `form` by `user` at `now`, given the
/// stored version `existing`: creation date kept, edition date `now`, slug
/// from the new title, publication date as `spec_publication_after_edit`.
pub fn edited_post(
    post_id: i32,
    form: PostForm,
    user: &UserToken,
    existing: &Post,
    now: NaiveDateTime,
) -> (p: Post)
    ensures
        p.id == post_id,
        p.user_id == user.id,
        p.slug@ == spec_slugify(form.title@),
        p.title@ == form.title@,
        p.body@ == form.body@,
        p.published == form.published,
        p.creation_date == existing.creation_date,
        p.edition_date == Some(now),
        p.publication_date == spec_publication_after_edit(
            existing.publication_date,
            form.published,
            now,
        ),
{
    let slug = slugify(form.title.as_str());
    let publication_date = match existing.publication_date {
        Some(date) => Some(date),
        None => if form.published { Some(now) } else { None },
    };
    Post {
        id: post_id,
        user_id: user.id,
        slug,
        title: form.title,
        body: form.body,
        published: form.published,
        creation_date: existing.creation_date,
        edition_date: Some(now),
        publication_date,
    }
}

/// Once a post has a publication date, no edit changes it; and an edit that
/// publishes a post leaves it with a publication date.
pub proof fn lemma_publication_date_is_kept(
    previous: Option<NaiveDateTime>,
    published: bool,
    now: NaiveDateTime,
)
    ensures
        previous is Some ==> spec_publication_after_edit(previous, published, now) == previous,
        published ==> spec_publication_after_edit(previous, published, now) is Some,
        !published && previous is None ==> spec_publication_after_edit(previous, published, now) is None,
        published && previous is None ==> spec_publication_after_edit(previous, published, now) == Some(now),
{
}

/// Number of posts on a page of the index.
pub const INDEX_PAGE_SIZE: i64 = 5;

/// The published posts that an index page shows: at most `INDEX_PAGE_SIZE`
/// of them (the first component), after skipping those of the earlier pages
/// (the second). Page 0 asks for a negative offset, which the store refuses.
pub fn index_window(params: &PaginationParams) -> (w: (i64, i64))
    ensures
        w.0 == INDEX_PAGE_SIZE,
        w.1 == INDEX_PAGE_SIZE * (params.page as int - 1),
{
    let page: i64 = params.page as i64 - 1;
    (INDEX_PAGE_SIZE, INDEX_PAGE_SIZE * page)
}

/// What the index page shows, given the page's posts with their authors and
/// the number of published posts: the posts with their bodies rendered to
/// HTML, and the page links.
pub fn index_view(params: PaginationParams, rows: Vec<(User, Post)>, total_published: i64) -> (r: (
    Vec<(User, Post)>,
    PaginationContext,
))
    requires
        params.context_defined(total_published as u32),
    ensures
        r.0@.len() == rows@.len(),
        forall|i: int|
            0 <= i < rows@.len() ==> (#[trigger] r.0@[i]).0 == rows@[i].0 && r.0@[i].1.is_rendering_of(
                rows@[i].1,
            ),
        params.spec_context(total_published as u32, r.1),
{
    let ghost all = rows@;
    let mut shown: Vec<(User, Post)> = Vec::new();
    for row in it: rows
        invariant
            it.seq() == all,
            shown@.len() == it.index(),
            forall|i: int|
                0 <= i < it.index() ==> (#[trigger] shown@[i]).0 == all[i].0 && shown@[i].1.is_rendering_of(
                    all[i].1,
                ),
    {
        let (user, post) = row;
        shown.push((user, post.to_html()));
    }
    let total: u32 = total_published as u32;
    (shown, params.context(total))
}

} // verus!
