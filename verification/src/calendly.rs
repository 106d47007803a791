//! Free-text scheduling links, a plain keyed store.

use vstd::prelude::*;

use crate::error::Error;
use crate::models::Calendly;
use crate::models::Keyed;
use crate::storage::has_key;
use crate::storage::key_index;
use crate::storage::record_at;
use crate::storage::store_get;
use crate::storage::store_insert;
use crate::storage::store_remove;
use crate::storage::Clinic;
use crate::utils::generate_id;

verus! {

/// Store a scheduling link under a fresh identifier; nothing is validated.
pub fn add_calendly(state: &mut Clinic, principle_id: String, calendly: String) -> (r: Result<
    Calendly,
    Error,
>)
    requires
        old(state).wf(),
        old(state).next_id < u64::MAX,
    ensures
        final(state).wf(),
        final(state).next_id == old(state).next_id + 1,
        final(state).patients == old(state).patients,
        final(state).doctors == old(state).doctors,
        final(state).appointments == old(state).appointments,
        final(state).messages == old(state).messages,
        final(state).medical_records == old(state).medical_records,
        final(state).reports == old(state).reports,
        final(state).identities == old(state).identities,
        final(state).docidentities == old(state).docidentities,
        final(state).availabilities == old(state).availabilities,
        final(state).datas == old(state).datas,
        (r matches Ok(c) && {
            &&& c.id == old(state).next_id
            &&& c.principle_id == principle_id
            &&& c.calendly == calendly
            &&& final(state).calendlies@ == old(state).calendlies@.push(c)
        }),
{
    let id = generate_id(state);
    let record = Calendly { id, principle_id, calendly };
    let stored = record.clone();
    store_insert(&mut state.calendlies, stored);
    Result::Ok(record)
}

/// Look a scheduling link up, reporting absence as `NotFound`.
pub fn get_calendly(state: &Clinic, id: u64) -> (r: Result<Calendly, Error>)
    requires
        state.wf(),
    ensures
        (match r {
            Ok(c) => has_key(state.calendlies@, id) && c == record_at(state.calendlies@, id),
            Err(e) => !has_key(state.calendlies@, id) && (e matches Error::NotFound { msg }
                && msg@ == "calendly not found"@),
        }),
{
    match store_get(&state.calendlies, id) {
        Option::Some(c) => Result::Ok(c.clone()),
        Option::None => Result::Err(Error::NotFound { msg: "calendly not found".to_owned() }),
    }
}

/// Remove a scheduling link by identifier.
pub fn delete_calendly(state: &mut Clinic, id: u64) -> (r: Result<(), Error>)
    requires
        old(state).wf(),
    ensures
        final(state).wf(),
        final(state).next_id == old(state).next_id,
        final(state).patients == old(state).patients,
        final(state).doctors == old(state).doctors,
        final(state).appointments == old(state).appointments,
        final(state).messages == old(state).messages,
        final(state).medical_records == old(state).medical_records,
        final(state).reports == old(state).reports,
        final(state).identities == old(state).identities,
        final(state).docidentities == old(state).docidentities,
        final(state).availabilities == old(state).availabilities,
        final(state).datas == old(state).datas,
        (if has_key(old(state).calendlies@, id) {
            r is Ok && final(state).calendlies@ == old(state).calendlies@.remove(
                key_index(old(state).calendlies@, id),
            )
        } else {
            final(state).calendlies@ == old(state).calendlies@ && (r matches Err(Error::NotFound {
                msg,
            }) && msg@ == "calendly not found"@)
        }),
{
    match store_remove(&mut state.calendlies, id) {
        Option::Some(_) => Result::Ok(()),
        Option::None => Result::Err(Error::NotFound { msg: "calendly not found".to_owned() }),
    }
}

} // verus!
