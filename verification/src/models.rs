use vstd::prelude::*;
use vstd::utf8::{encode_utf8, is_ascii_chars};
use chrono::NaiveDateTime;

use crate::forms::{FieldError, FormErrors, lemma_error_if, spec_error_if};
use crate::markdown::{markdown_to_html, spec_markdown_html};

verus! {

/// A date and time without time zone; carried through, never inspected.
#[verifier::external_type_specification]
#[verifier::external_body]
pub struct ExNaiveDateTime(NaiveDateTime);

/// A blog post as stored.
pub struct Post {
    pub id: i32,
    pub user_id: i32,
    pub slug: String,
    pub title: String,
    pub body: String,
    pub published: bool,
    pub creation_date: NaiveDateTime,
    pub edition_date: Option<NaiveDateTime>,
    pub publication_date: Option<NaiveDateTime>,
}

/// A post about to be stored; the store gives it its id.
pub struct NewPost {
    pub user_id: i32,
    pub title: String,
    pub slug: String,
    pub body: String,
    pub published: bool,
    pub creation_date: NaiveDateTime,
    pub publication_date: Option<NaiveDateTime>,
}

impl Post {
    /// `self` is `source` with its Markdown body rendered to HTML.
    pub open spec fn is_rendering_of(self, source: Post) -> bool {
        &&& self.body@ == spec_markdown_html(source.body@)
        &&& self.id == source.id
        &&& self.user_id == source.user_id
        &&& self.slug == source.slug
        &&& self.title == source.title
        &&& self.published == source.published
        &&& self.creation_date == source.creation_date
        &&& self.edition_date == source.edition_date
        &&& self.publication_date == source.publication_date
    }

    /// The same post with its Markdown body rendered to HTML.
    pub fn to_html(self) -> (p: Post)
        ensures
            p.is_rendering_of(self),
            p.body@ == spec_markdown_html(self.body@),
            p.published == self.published,
    {
        let body = markdown_to_html(self.body.as_str());
        Post { body, ..self }
    }
}

/// Rendering a post turns its Markdown body into HTML whatever else the post
/// holds (a draft is rendered as a published post is) and keeps every other
/// field; two posts with the same body render to the same HTML.
pub proof fn lemma_rendering_is_markdown_of_body(source: Post, rendered: Post, other_source: Post, other: Post)
    requires
        rendered.is_rendering_of(source),
        other.is_rendering_of(other_source),
    ensures
        rendered.body@ == spec_markdown_html(source.body@),
        rendered.published == source.published,
        rendered.id == source.id,
        rendered.title == source.title,
        rendered.slug == source.slug,
        source.body@ == other_source.body@ ==> rendered.body@ == other.body@,
{
}

/// A registered user. The email and the password digest are never shown.
pub struct User {
    pub id: i32,
    pub name: String,
    pub email: String,
    pub password: String,
}

impl User {
    /// A copy of the user.
    pub fn duplicate(&self) -> (u: User)
        ensures
            u == *self,
    {
        User {
            id: self.id,
            name: self.name.clone(),
            email: self.email.clone(),
            password: self.password.clone(),
        }
    }
}

/// A registration request.
pub struct NewUser {
    pub name: String,
    pub email: String,
    pub password: String,
}

/// The pattern that a valid email address contains somewhere.
pub const EMAIL_PATTERN: &'static str = "\\w+@\\w+\\.\\w+";

/// Whether the regular expression `pattern` (regex crate syntax) matches
/// somewhere in `haystack`; `None` when `pattern` does not compile.
pub uninterp spec fn spec_regex_is_match(pattern: Seq<char>, haystack: Seq<char>) -> Option<bool>;

/// An ASCII word character, as `\w` matches it among ASCII characters.
pub open spec fn is_ascii_word(c: char) -> bool {
    ('a' <= c <= 'z') || ('A' <= c <= 'Z') || ('0' <= c <= '9') || c == '_'
}

/// Whether `\w+@\w+\.\w+` occurs in the ASCII text `s`: an `@` right after
/// a word character, then one or more word characters up to a `.`, then a
/// word character.
pub open spec fn spec_ascii_email_match(s: Seq<char>) -> bool {
    exists|i: int, k: int|
        #![trigger s[i], s[k]]
        1 <= i && i + 1 < k && k + 1 < s.len() && s[i] == '@' && s[k] == '.' && is_ascii_word(s[i - 1])
            && is_ascii_word(s[k + 1]) && (forall|j: int| i < j < k ==> is_ascii_word(#[trigger] s[j]))
}

/// Compiles `pattern` with `regex::Regex::new` and, when it compiles, asks
/// `regex::Regex::is_match` about `haystack`. Claimed: the result is
/// `spec_regex_is_match(pattern@, haystack@)`, a function of the two texts;
/// and for the email pattern on an ASCII text, where `\w` stands for an
/// ASCII letter, digit or `_`, the pattern compiles and matches as
/// `spec_ascii_email_match` says. The regex language in general is not
/// stated.
#[verifier::external_body]
fn regex_is_match(pattern: &str, haystack: &str) -> (r: Option<bool>)
    ensures
        r == spec_regex_is_match(pattern@, haystack@),
        pattern@ == EMAIL_PATTERN@ && is_ascii_chars(haystack@) ==> r == Some(
            spec_ascii_email_match(haystack@),
        ),
{
    match regex::Regex::new(pattern) {
        Ok(re) => Some(re.is_match(haystack)),
        Err(_) => None,
    }
}

/// Length in bytes of the UTF-8 encoding of `s`, as `str::len` reports it
/// (a string in memory always has a byte length that fits in `usize`).
pub open spec fn utf8_len(s: Seq<char>) -> usize {
    encode_utf8(s).len() as usize
}

impl NewUser {
    /// Whether the email passes the email pattern (an uncompilable pattern
    /// lets nothing pass).
    pub open spec fn spec_email_accepted(&self) -> bool {
        spec_regex_is_match(EMAIL_PATTERN@, self.email@) == Some(true)
    }

    /// The errors of a registration, given whether the email is accepted:
    /// a name under 4 bytes, a refused email, a password under 8 bytes.
    pub open spec fn spec_errors(&self, email_accepted: bool) -> Seq<FieldError> {
        spec_error_if(utf8_len(self.name@) < 4, FieldError::NameTooShort)
            + spec_error_if(!email_accepted, FieldError::EmailInvalid)
            + spec_error_if(utf8_len(self.password@) < 8, FieldError::PasswordTooShort)
    }

    /// Checks a registration, the email's verdict given.
    pub fn validate_with(&self, email_accepted: bool) -> (r: Result<(), FormErrors>)
        ensures
            r is Ok <==> self.spec_errors(email_accepted).len() == 0,
            r matches Err(e) ==> e@ == self.spec_errors(email_accepted),
            r is Ok <==> (utf8_len(self.name@) >= 4 && email_accepted && utf8_len(self.password@) >= 8),
    {
        proof {
            NewUser::lemma_registration_errors(*self, email_accepted);
        }
        let mut errors = FormErrors::new();
        errors.add_if(self.name.as_str().len() < 4, FieldError::NameTooShort);
        errors.add_if(!email_accepted, FieldError::EmailInvalid);
        errors.add_if(self.password.as_str().len() < 8, FieldError::PasswordTooShort);
        if !errors.is_empty() {
            Err(errors)
        } else {
            Ok(())
        }
    }

    /// A registration is refused for exactly the fields that fail: a name
    /// under 4 bytes (`NameTooShort`), a refused email (`EmailInvalid`), a
    /// password under 8 bytes (`PasswordTooShort`), each at most once, in
    /// that order, and no other error.
    pub proof fn lemma_registration_errors(form: NewUser, email_accepted: bool)
        ensures
            form.spec_errors(email_accepted).contains(FieldError::NameTooShort) <==> utf8_len(
                form.name@,
            ) < 4,
            form.spec_errors(email_accepted).contains(FieldError::EmailInvalid) <==> !email_accepted,
            form.spec_errors(email_accepted).contains(FieldError::PasswordTooShort) <==> utf8_len(
                form.password@,
            ) < 8,
            forall|e: FieldError|
                #[trigger] form.spec_errors(email_accepted).contains(e) ==> e == FieldError::NameTooShort
                    || e == FieldError::EmailInvalid || e == FieldError::PasswordTooShort,
            form.spec_errors(email_accepted).len() == (if utf8_len(form.name@) < 4 { 1int } else { 0 })
                + (if email_accepted { 0int } else { 1 }) + (if utf8_len(form.password@) < 8 { 1int } else { 0 }),
            utf8_len(form.name@) < 4 ==> form.spec_errors(email_accepted)[0] == FieldError::NameTooShort,
    {
        let errs = form.spec_errors(email_accepted);
        let a = spec_error_if(utf8_len(form.name@) < 4, FieldError::NameTooShort);
        let b = spec_error_if(!email_accepted, FieldError::EmailInvalid);
        let c = spec_error_if(utf8_len(form.password@) < 8, FieldError::PasswordTooShort);
        assert(errs == a + b + c);
        lemma_error_if(utf8_len(form.name@) < 4, FieldError::NameTooShort);
        lemma_error_if(!email_accepted, FieldError::EmailInvalid);
        lemma_error_if(utf8_len(form.password@) < 8, FieldError::PasswordTooShort);
        assert forall|e: FieldError| #[trigger] errs.contains(e) <==> (a.contains(e) || b.contains(e)
            || c.contains(e)) by {
            if errs.contains(e) {
                let i = choose|i: int| 0 <= i < errs.len() && errs[i] == e;
                if i < a.len() {
                    assert(a[i] == e);
                } else if i < a.len() + b.len() {
                    assert(b[i - a.len()] == e);
                } else {
                    assert(c[i - a.len() - b.len()] == e);
                }
            }
            if a.contains(e) {
                let i = choose|i: int| 0 <= i < a.len() && a[i] == e;
                assert(errs[i] == e);
            }
            if b.contains(e) {
                let i = choose|i: int| 0 <= i < b.len() && b[i] == e;
                assert(errs[a.len() + i] == e);
            }
            if c.contains(e) {
                let i = choose|i: int| 0 <= i < c.len() && c[i] == e;
                assert(errs[a.len() + b.len() + i] == e);
            }
        }
        assert(errs.contains(FieldError::NameTooShort) == a.contains(FieldError::NameTooShort));
        assert(errs.contains(FieldError::EmailInvalid) == b.contains(FieldError::EmailInvalid));
        assert(errs.contains(FieldError::PasswordTooShort) == c.contains(FieldError::PasswordTooShort));
        if utf8_len(form.name@) < 4 {
            assert(errs[0] == a[0]);
        }
    }

    /// Checks a registration: the name needs 4 bytes, the email must contain
    /// a match of `EMAIL_PATTERN`, the password needs 8 bytes.
    pub fn validate(&self) -> (r: Result<(), FormErrors>)
        ensures
            r is Ok <==> self.spec_errors(self.spec_email_accepted()).len() == 0,
            r matches Err(e) ==> e@ == self.spec_errors(self.spec_email_accepted()),
            is_ascii_chars(self.email@) ==> (self.spec_email_accepted() == spec_ascii_email_match(
                self.email@,
            )),
    {
        let verdict = regex_is_match(EMAIL_PATTERN, self.email.as_str());
        let accepted = match verdict {
            Some(b) => b,
            None => false,
        };
        self.validate_with(accepted)
    }
}

/// A comment as stored.
pub struct Comment {
    pub id: i32,
    pub user_id: i32,
    pub post_id: i32,
    pub body: String,
    pub creation_date: NaiveDateTime,
}

/// A comment about to be stored; the store gives it its id.
pub struct NewComment {
    pub user_id: i32,
    pub post_id: i32,
    pub body: String,
    pub creation_date: NaiveDateTime,
}

} // verus!
