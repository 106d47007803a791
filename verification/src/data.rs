//! Opaque binary payloads exchanged between patients and doctors.

use vstd::prelude::*;

use crate::error::Error;
use crate::models::data_like;
use crate::models::Data;
use crate::models::Keyed;
use crate::storage::has_key;
use crate::storage::record_at;
use crate::storage::store_get;
use crate::storage::store_insert;
use crate::storage::Clinic;
use crate::utils::generate_id;

verus! {

/// Store a binary payload under a fresh identifier; nothing is validated.
pub fn add_data(
    state: &mut Clinic,
    patient_username: String,
    doctor_username: String,
    data: Vec<u8>,
) -> (r: Result<Data, Error>)
    requires
        old(state).wf(),
        old(state).next_id < u64::MAX,
    ensures
        final(state).wf(),
        final(state).next_id == old(state).next_id + 1,
        final(state).patients == old(state).patients,
        final(state).doctors == old(state).doctors,
        final(state).appointments == old(state).appointments,
        final(state).messages == old(state).messages,
        final(state).medical_records == old(state).medical_records,
        final(state).reports == old(state).reports,
        final(state).identities == old(state).identities,
        final(state).docidentities == old(state).docidentities,
        final(state).calendlies == old(state).calendlies,
        final(state).availabilities == old(state).availabilities,
        (r matches Ok(d) && {
            &&& d.id == old(state).next_id
            &&& d.patient_username == patient_username
            &&& d.doctor_username == doctor_username
            &&& d.data == data
            &&& final(state).datas@ == old(state).datas@.push(final(state).datas@.last())
            &&& data_like(final(state).datas@.last(), d)
        }),
{
    let id = generate_id(state);
    let record = Data { id, patient_username, doctor_username, data };
    let stored = record.clone();
    store_insert(&mut state.datas, stored);
    Result::Ok(record)
}

/// Look a binary payload up, reporting absence as `NotFound`.
pub fn get_data(state: &Clinic, id: u64) -> (r: Result<Data, Error>)
    requires
        state.wf(),
    ensures
        (match r {
            Ok(d) => has_key(state.datas@, id) && data_like(record_at(state.datas@, id), d),
            Err(e) => !has_key(state.datas@, id) && (e matches Error::NotFound { msg }
                && msg@ == "data not found"@),
        }),
{
    match store_get(&state.datas, id) {
        Option::Some(d) => Result::Ok(d.clone()),
        Option::None => Result::Err(Error::NotFound { msg: "data not found".to_owned() }),
    }
}

} // verus!
