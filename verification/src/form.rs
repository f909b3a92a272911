//! Fields of a form that is sent with a request.
use vstd::prelude::*;

verus! {

/// The names and values of the fields of a form, in order.
pub open spec fn fields(form: Seq<(String, String)>) -> Seq<(Seq<char>, Seq<char>)> {
    Seq::new(form.len(), |i: int| (form[i].0@, form[i].1@))
}

/// Adds a field to a form.
pub fn add_field(form: &mut Vec<(String, String)>, name: &str, value: &str)
    ensures
        fields(final(form)@) == fields(old(form)@).push((name@, value@)),
{
    form.push((name.to_owned(), value.to_owned()));
    assert(fields(form@) == fields(old(form)@).push((name@, value@)));
}

/// The fields of a form are its pairs, in order and none left out.
pub proof fn law_fields(form: Seq<(String, String)>, i: int)
    requires
        0 <= i < form.len(),
    ensures
        fields(form).len() == form.len(),
        fields(form)[i].0 == form[i].0@,
        fields(form)[i].1 == form[i].1@,
{
}

} // verus!
