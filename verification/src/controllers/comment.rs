use vstd::prelude::*;
use chrono::NaiveDateTime;

use crate::auth::UserToken;
use crate::controllers::post::PostLocation;
use crate::forms::{FieldError, FormErrors, spec_error_if};
use crate::models::{NewComment, Post};

verus! {

/// The form used to comment on a post.
pub struct CommentForm {
    pub user_id: i32,
    pub body: String,
}

impl CommentForm {
    /// The errors of a comment form: an empty body.
    pub open spec fn spec_errors(&self) -> Seq<FieldError> {
        spec_error_if(self.body@.len() == 0, FieldError::BodyEmpty)
    }

    /// Checks that the body is not empty.
    pub fn validate(&self) -> (r: Result<(), FormErrors>)
        ensures
            r is Ok <==> self.spec_errors().len() == 0,
            r is Ok <==> self.body@.len() > 0,
            r matches Err(e) ==> e@ == seq![FieldError::BodyEmpty],
            r matches Err(e) ==> e@ == self.spec_errors(),
    {
        let mut errors = FormErrors::new();
        errors.add_if(self.body.as_str().is_empty(), FieldError::BodyEmpty);
        if !errors.is_empty() {
            Err(errors)
        } else {
            Ok(())
        }
    }
}

/// A comment form is refused exactly when its body is empty, however long
/// a non-empty body is, and then with the one error `BodyEmpty`.
pub proof fn lemma_comment_form_errors(form: CommentForm)
    ensures
        form.spec_errors().len() == 0 <==> form.body@.len() > 0,
        form.body@.len() == 0 ==> form.spec_errors() == seq![FieldError::BodyEmpty],
{
}

/// The second step of commenting, once the form was found valid and the
/// post `post_id` was looked up (`post`, `None` when there is no such
/// post). The comment is refused when the post does not exist or when the
/// form claims another author than the logged-in `user`; otherwise it is
/// stored as written by `user` at `now`, and the browser is sent to the
/// post's page.
pub fn accept_comment(
    form: CommentForm,
    post_id: i32,
    user: &UserToken,
    post: Option<&Post>,
    now: NaiveDateTime,
) -> (r: Option<(NewComment, PostLocation)>)
    ensures
        r is Some <==> (post is Some && form.user_id == user.id),
        r matches Some((c, loc)) ==> {
            &&& c.user_id == user.id
            &&& c.post_id == post_id
            &&& c.body@ == form.body@
            &&& c.creation_date == now
            &&& loc matches PostLocation::BySlug(s) && s@ == post.unwrap().slug@
        },
{
    let post = match post {
        Some(p) => p,
        None => return None,
    };
    if form.user_id != user.id {
        return None;
    }
    let comment = NewComment { user_id: user.id, post_id, body: form.body, creation_date: now };
    Some((comment, PostLocation::BySlug(post.slug.clone())))
}

} // verus!
