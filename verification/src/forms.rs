use vstd::prelude::*;

verus! {

/// One reason why a submitted form is refused. Each reason belongs to one
/// form field and carries the message shown next to that field.
#[derive(PartialEq, Eq, Structural, Clone, Copy, Debug)]
pub enum FieldError {
    NameTooShort,
    EmailInvalid,
    PasswordTooShort,
    TitleEmpty,
    BodyEmpty,
    NameTaken,
    EmailTaken,
}

impl FieldError {
    /// The form field that the error belongs to.
    pub open spec fn spec_field(self) -> Seq<char> {
        match self {
            FieldError::NameTooShort => "name"@,
            FieldError::EmailInvalid => "email"@,
            FieldError::PasswordTooShort => "password"@,
            FieldError::TitleEmpty => "title"@,
            FieldError::BodyEmpty => "body"@,
            FieldError::NameTaken => "name"@,
            FieldError::EmailTaken => "email"@,
        }
    }

    /// The message shown for the error.
    pub open spec fn spec_message(self) -> Seq<char> {
        match self {
            FieldError::NameTooShort => "Name shall not be empty"@,
            FieldError::EmailInvalid => "Email is not valid"@,
            FieldError::PasswordTooShort => "Password should be at least 8 chars"@,
            FieldError::TitleEmpty => "Title shall not be emty"@,
            FieldError::BodyEmpty => "Body shall not be emty"@,
            FieldError::NameTaken => "This user name already exists"@,
            FieldError::EmailTaken => "This email already exists"@,
        }
    }

    pub fn field(&self) -> (f: &'static str)
        ensures
            f@ == self.spec_field(),
    {
        match self {
            FieldError::NameTooShort => "name",
            FieldError::EmailInvalid => "email",
            FieldError::PasswordTooShort => "password",
            FieldError::TitleEmpty => "title",
            FieldError::BodyEmpty => "body",
            FieldError::NameTaken => "name",
            FieldError::EmailTaken => "email",
        }
    }

    pub fn message(&self) -> (m: &'static str)
        ensures
            m@ == self.spec_message(),
    {
        match self {
            FieldError::NameTooShort => "Name shall not be empty",
            FieldError::EmailInvalid => "Email is not valid",
            FieldError::PasswordTooShort => "Password should be at least 8 chars",
            FieldError::TitleEmpty => "Title shall not be emty",
            FieldError::BodyEmpty => "Body shall not be emty",
            FieldError::NameTaken => "This user name already exists",
            FieldError::EmailTaken => "This email already exists",
        }
    }
}

/// The errors found in one submitted form, in the order the checks ran.
pub struct FormErrors {
    errors: Vec<FieldError>,
}

impl View for FormErrors {
    type V = Seq<FieldError>;

    closed spec fn view(&self) -> Seq<FieldError> {
        self.errors@
    }
}

/// The first error of `errs` that belongs to the form field `key` carries the message `m`.
pub open spec fn spec_first_message(errs: Seq<FieldError>, key: Seq<char>, m: Seq<char>) -> bool {
    exists|i: int|
        0 <= i < errs.len() && #[trigger] errs[i].spec_field() == key && errs[i].spec_message() == m
            && forall|j: int| 0 <= j < i ==> errs[j].spec_field() != key
}

/// The message found for a field is that of its first error: when the first
/// error belongs to the field, it is that error's message; and a field has
/// at most one such message.
pub proof fn lemma_first_message(errs: Seq<FieldError>, key: Seq<char>, m1: Seq<char>, m2: Seq<char>)
    ensures
        spec_first_message(errs, key, m1) && spec_first_message(errs, key, m2) ==> m1 == m2,
        errs.len() > 0 && errs[0].spec_field() == key ==> spec_first_message(errs, key, errs[0].spec_message()),
        spec_first_message(errs, key, m1) ==> exists|i: int|
            0 <= i < errs.len() && #[trigger] errs[i].spec_field() == key && errs[i].spec_message() == m1,
{
    if spec_first_message(errs, key, m1) && spec_first_message(errs, key, m2) {
        let i = choose|i: int|
            0 <= i < errs.len() && #[trigger] errs[i].spec_field() == key && errs[i].spec_message() == m1
                && forall|j: int| 0 <= j < i ==> errs[j].spec_field() != key;
        let k = choose|k: int|
            0 <= k < errs.len() && #[trigger] errs[k].spec_field() == key && errs[k].spec_message() == m2
                && forall|j: int| 0 <= j < k ==> errs[j].spec_field() != key;
        assert(i == k);
    }
    if errs.len() > 0 && errs[0].spec_field() == key {
        assert(errs[0].spec_field() == key);
    }
}

/// Keeps `e` when `cond` holds, else nothing: the building block of the
/// error lists that the validators state.
pub open spec fn spec_error_if(cond: bool, e: FieldError) -> Seq<FieldError> {
    if cond {
        seq![e]
    } else {
        Seq::<FieldError>::empty()
    }
}

/// `spec_error_if(cond, e)` holds `e` once when `cond` holds, and nothing
/// otherwise.
pub proof fn lemma_error_if(cond: bool, e: FieldError)
    ensures
        forall|x: FieldError| #[trigger] spec_error_if(cond, e).contains(x) <==> (cond && x == e),
        spec_error_if(cond, e).len() == (if cond { 1int } else { 0 }),
{
    assert forall|x: FieldError| #[trigger] spec_error_if(cond, e).contains(x) <==> (cond && x == e) by {
        if cond && x == e {
            assert(spec_error_if(cond, e)[0] == x);
        }
    }
}

impl FormErrors {
    pub fn new() -> (errs: FormErrors)
        ensures
            errs@ == Seq::<FieldError>::empty(),
    {
        FormErrors { errors: Vec::new() }
    }

    /// Records `e` after the errors found so far.
    pub fn add(&mut self, e: FieldError)
        ensures
            final(self)@ == old(self)@.push(e),
    {
        self.errors.push(e);
    }

    /// Records `e` when `cond` holds.
    pub fn add_if(&mut self, cond: bool, e: FieldError)
        ensures
            final(self)@ == old(self)@ + spec_error_if(cond, e),
    {
        if cond {
            self.errors.push(e);
        }
        assert(self@ =~= old(self)@ + spec_error_if(cond, e));
    }

    pub fn len(&self) -> (n: usize)
        ensures
            n == self@.len(),
    {
        self.errors.len()
    }

    pub fn is_empty(&self) -> (b: bool)
        ensures
            b == (self@.len() == 0),
    {
        self.errors.len() == 0
    }

    /// The error at position `i`.
    pub fn error_at(&self, i: usize) -> (e: FieldError)
        requires
            i < self@.len(),
        ensures
            e == self@[i as int],
    {
        self.errors[i]
    }

    /// The message recorded for the form field `key`, if any.
    pub fn get(&self, key: &str) -> (m: Option<&'static str>)
        ensures
            m matches Some(msg) ==> spec_first_message(self@, key@, msg@),
            m is None ==> forall|i: int| 0 <= i < self@.len() ==> #[trigger] self@[i].spec_field() != key@,
    {
        let wanted = key.to_owned();
        let mut i: usize = 0;
        while i < self.errors.len()
            invariant
                i <= self.errors@.len(),
                wanted@ == key@,
                forall|j: int| 0 <= j < i ==> #[trigger] self.errors@[j].spec_field() != key@,
            decreases self.errors@.len() - i,
        {
            let e = self.errors[i];
            let field = e.field().to_owned();
            if field == wanted {
                let msg = e.message();
                assert(self@[i as int].spec_field() == key@);
                return Some(msg);
            }
            i = i + 1;
        }
        None
    }
}

} // verus!
