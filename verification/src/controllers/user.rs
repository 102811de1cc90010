use vstd::prelude::*;

use crate::forms::{FieldError, FormErrors, spec_error_if};
use crate::models::{NewUser, User};

verus! {

/// Why a valid registration clashes with the stored user `existing`: the
/// same name, the same email, in that order.
pub open spec fn spec_conflicts(form: &NewUser, existing: &User) -> Seq<FieldError> {
    spec_error_if(form.name@ == existing.name@, FieldError::NameTaken)
        + spec_error_if(form.email@ == existing.email@, FieldError::EmailTaken)
}

/// A registration that meets a stored user is refused for the name when the
/// names are the same and for the email when the emails are the same, the
/// name's error first, and for nothing else.
pub proof fn lemma_conflicts(form: NewUser, existing: User)
    ensures
        spec_conflicts(&form, &existing).contains(FieldError::NameTaken) <==> form.name@ == existing.name@,
        spec_conflicts(&form, &existing).contains(FieldError::EmailTaken) <==> form.email@
            == existing.email@,
        forall|e: FieldError|
            #[trigger] spec_conflicts(&form, &existing).contains(e) ==> e == FieldError::NameTaken || e
                == FieldError::EmailTaken,
        spec_conflicts(&form, &existing).len() == (if form.name@ == existing.name@ { 1int } else { 0 })
            + (if form.email@ == existing.email@ { 1int } else { 0 }),
        form.name@ == existing.name@ ==> spec_conflicts(&form, &existing)[0] == FieldError::NameTaken,
{
    let errs = spec_conflicts(&form, &existing);
    if form.name@ == existing.name@ {
        assert(errs[0] == FieldError::NameTaken);
    }
    if form.email@ == existing.email@ {
        assert(errs[errs.len() - 1] == FieldError::EmailTaken);
    }
    assert forall|e: FieldError| #[trigger] errs.contains(e) implies e == FieldError::NameTaken || e
        == FieldError::EmailTaken by {
        let i = choose|i: int| 0 <= i < errs.len() && errs[i] == e;
    }
    if form.name@ != existing.name@ && errs.contains(FieldError::NameTaken) {
        let i = choose|i: int| 0 <= i < errs.len() && errs[i] == FieldError::NameTaken;
    }
    if form.email@ != existing.email@ && errs.contains(FieldError::EmailTaken) {
        let i = choose|i: int| 0 <= i < errs.len() && errs[i] == FieldError::EmailTaken;
    }
}

/// The errors reported when a registration finds the user `existing`, the
/// one stored under the same email or the same name.
pub fn conflict_errors(form: &NewUser, existing: &User) -> (e: FormErrors)
    ensures
        e@ == spec_conflicts(form, existing),
        e@.contains(FieldError::NameTaken) <==> form.name@ == existing.name@,
        e@.contains(FieldError::EmailTaken) <==> form.email@ == existing.email@,
        e@.len() == (if form.name@ == existing.name@ { 1int } else { 0 }) + (if form.email@
            == existing.email@ { 1int } else { 0 }),
{
    proof {
        lemma_conflicts(*form, *existing);
    }
    let mut errors = FormErrors::new();
    errors.add_if(form.name == existing.name, FieldError::NameTaken);
    errors.add_if(form.email == existing.email, FieldError::EmailTaken);
    errors
}

} // verus!
