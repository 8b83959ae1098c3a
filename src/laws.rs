use vstd::prelude::*;

use crate::records::{Agrovet, AgrovetView, Message, UpdateAgrovetPayload};
use crate::store::{agrovet_lookup, updated_agrovet};

verus! {

/// Two point lookups of the same id in the same store agree: both find
/// the same agrovet, or both report `NotFound`.
pub proof fn lemma_lookup_repeatable(
    s: Seq<AgrovetView>,
    id: u64,
    r1: Result<Agrovet, Message>,
    r2: Result<Agrovet, Message>,
)
    requires
        agrovet_lookup(s, id, r1),
        agrovet_lookup(s, id, r2),
    ensures
        r1 is Ok <==> r2 is Ok,
        r1 matches Ok(a) ==> r2 is Ok && a@ == r2->Ok_0@,
        r1 matches Err(m) ==> m is NotFound && r2 is Err && r2->Err_0 is NotFound,
{
}

/// A partial update changes only the fields that the payload gives: an
/// omitted field, or an empty name, keeps its stored value, and the id,
/// product list and creation time never change.
pub proof fn lemma_update_keeps_omitted(a: AgrovetView, p: UpdateAgrovetPayload)
    ensures
        updated_agrovet(a, p).id == a.id,
        updated_agrovet(a, p).products == a.products,
        updated_agrovet(a, p).created_at == a.created_at,
        p.name is None ==> updated_agrovet(a, p).name == a.name,
        p.name matches Some(n) ==> (n@.len() == 0 ==> updated_agrovet(a, p).name == a.name) && (
        n@.len() > 0 ==> updated_agrovet(a, p).name == n@),
        p.location is None ==> updated_agrovet(a, p).location == a.location,
        p.location matches Some(l) ==> updated_agrovet(a, p).location == l@,
        p.contact is None ==> updated_agrovet(a, p).contact == a.contact,
        p.contact matches Some(c) ==> updated_agrovet(a, p).contact == c@,
        p.email is None ==> updated_agrovet(a, p).email == a.email,
        p.email matches Some(e) ==> updated_agrovet(a, p).email == e@,
{
}

} // verus!
