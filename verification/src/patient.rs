//! Patient directory: the store behind the patient-existence lookup.

use vstd::prelude::*;

use crate::error::Error;
use crate::models::Keyed;
use crate::models::Patient;
use crate::storage::has_key;
use crate::storage::key_index;
use crate::storage::record_at;
use crate::storage::store_get;
use crate::storage::store_insert;
use crate::storage::store_remove;
use crate::storage::Clinic;
use crate::utils::generate_id;

verus! {

/// Some stored patient already uses this username.
pub open spec fn patient_username_taken(s: Seq<Patient>, username: Seq<char>) -> bool {
    exists|i: int| 0 <= i < s.len() && #[trigger] s[i].username@ == username
}

/// Look a patient up, reporting absence as `NotFound`.
pub fn get_patient(state: &Clinic, patient_id: u64) -> (r: Result<Patient, Error>)
    requires
        state.wf(),
    ensures
        (match r {
            Ok(p) => has_key(state.patients@, patient_id) && p == record_at(
                state.patients@,
                patient_id,
            ),
            Err(e) => !has_key(state.patients@, patient_id) && (e matches Error::NotFound { msg }
                && msg@ == "patient not found"@),
        }),
{
    match get_patient_by_id(state, &patient_id) {
        Option::Some(patient) => Result::Ok(patient),
        Option::None => Result::Err(Error::NotFound { msg: "patient not found".to_owned() }),
    }
}

/// Register a patient: the username must be filled and new, and the given
/// identity must already be registered.
#[verifier::loop_isolation(false)]
pub fn register_patient(state: &mut Clinic, username: String, identity_id: u64) -> (r: Result<
    Patient,
    Error,
>)
    requires
        old(state).wf(),
        old(state).next_id < u64::MAX,
    ensures
        final(state).wf(),
        ({
            let pre = *old(state);
            if username@.len() == 0 {
                *final(state) == pre && (r matches Err(Error::InvalidInput { msg })
                    && msg@ == "Name cannot be empty"@)
            } else if patient_username_taken(pre.patients@, username@) {
                *final(state) == pre && (r matches Err(Error::AlreadyExists { msg })
                    && msg@ == "Username already exists"@)
            } else if !has_key(pre.identities@, identity_id) {
                *final(state) == pre && (r matches Err(Error::NotFound { msg })
                    && msg@ == "Identity ID does not exist"@)
            } else {
                &&& (r matches Ok(p) && {
                    &&& p.id == pre.next_id
                    &&& p.username == username
                    &&& p.identity_id == identity_id
                    &&& final(state).patients@ == pre.patients@.push(p)
                })
                &&& final(state).next_id == pre.next_id + 1
                &&& final(state).doctors == pre.doctors
                &&& final(state).appointments == pre.appointments
                &&& final(state).messages == pre.messages
                &&& final(state).medical_records == pre.medical_records
                &&& final(state).reports == pre.reports
                &&& final(state).identities == pre.identities
                &&& final(state).docidentities == pre.docidentities
                &&& final(state).calendlies == pre.calendlies
                &&& final(state).availabilities == pre.availabilities
                &&& final(state).datas == pre.datas
            }
        }),
{
    if username.as_str().is_empty() {
        return Result::Err(Error::InvalidInput { msg: "Name cannot be empty".to_owned() });
    }
    let n = state.patients.len();
    let mut i: usize = 0;
    while i < n
        invariant
            i <= n,
            n == state.patients@.len(),
            *state == *old(state),
            forall|m: int| 0 <= m < i ==> #[trigger] state.patients@[m].username@ != username@,
        decreases n - i,
    {
        if state.patients[i].username == username {
            proof {
                assert(state.patients@[i as int].username@ == username@);
                assert(patient_username_taken(state.patients@, username@));
            }
            return Result::Err(Error::AlreadyExists { msg: "Username already exists".to_owned() });
        }
        i = i + 1;
    }
    if store_get(&state.identities, identity_id).is_none() {
        return Result::Err(Error::NotFound { msg: "Identity ID does not exist".to_owned() });
    }
    let id = generate_id(state);
    let patient = Patient { id, username, identity_id };
    let stored = patient.clone();
    store_insert(&mut state.patients, stored);
    Result::Ok(patient)
}

/// Remove a patient record by identifier.
pub fn delete_patient(state: &mut Clinic, patient_id: u64) -> (r: Result<(), Error>)
    requires
        old(state).wf(),
    ensures
        final(state).wf(),
        final(state).next_id == old(state).next_id,
        final(state).doctors == old(state).doctors,
        final(state).appointments == old(state).appointments,
        final(state).messages == old(state).messages,
        final(state).medical_records == old(state).medical_records,
        final(state).reports == old(state).reports,
        final(state).identities == old(state).identities,
        final(state).docidentities == old(state).docidentities,
        final(state).calendlies == old(state).calendlies,
        final(state).availabilities == old(state).availabilities,
        final(state).datas == old(state).datas,
        (if has_key(old(state).patients@, patient_id) {
            r is Ok && final(state).patients@ == old(state).patients@.remove(
                key_index(old(state).patients@, patient_id),
            )
        } else {
            final(state).patients@ == old(state).patients@ && (r matches Err(Error::NotFound {
                msg,
            }) && msg@ == "patient not found"@)
        }),
{
    match store_remove(&mut state.patients, patient_id) {
        Option::Some(_) => Result::Ok(()),
        Option::None => Result::Err(Error::NotFound { msg: "patient not found".to_owned() }),
    }
}

/// All patient records in ascending identifier order.
pub fn list_patients(state: &Clinic) -> (r: Vec<Patient>)
    ensures
        r@ == state.patients@,
{
    let r = state.patients.clone();
    proof {
        assert forall|i: int| 0 <= i < r@.len() implies r@[i] == state.patients@[i] by {}
        assert(r@ =~= state.patients@);
    }
    r
}

/// The stored patient under this identifier, if any.
pub fn get_patient_by_id(state: &Clinic, patient_id: &u64) -> (r: Option<Patient>)
    requires
        state.wf(),
    ensures
        (match r {
            Option::Some(p) => has_key(state.patients@, *patient_id) && p == record_at(
                state.patients@,
                *patient_id,
            ),
            Option::None => !has_key(state.patients@, *patient_id),
        }),
{
    match store_get(&state.patients, *patient_id) {
        Option::Some(p) => Option::Some(p.clone()),
        Option::None => Option::None,
    }
}

} // verus!
