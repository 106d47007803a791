//! Doctor directory: the store behind the doctor-existence lookup.

use vstd::prelude::*;

use crate::error::Error;
use crate::models::Doctor;
use crate::models::Keyed;
use crate::storage::has_key;
use crate::storage::key_index;
use crate::storage::record_at;
use crate::storage::store_get;
use crate::storage::store_insert;
use crate::storage::store_remove;
use crate::storage::Clinic;
use crate::utils::all_dec_digits;
use crate::utils::dec_digits_of;
use crate::utils::dec_value;
use crate::utils::digit_value;
use crate::utils::generate_id;
use crate::utils::parse_u64;
use crate::utils::u64_to_string;

verus! {

/// Some stored doctor already uses this principal string.
pub open spec fn doctor_principal_taken(s: Seq<Doctor>, principal_str: Seq<char>) -> bool {
    exists|i: int| 0 <= i < s.len() && #[trigger] s[i].principal_str@ == principal_str
}

/// Register a doctor: all text fields must be filled and the principal
/// string must be new; the record is stored under a fresh identifier.
#[verifier::loop_isolation(false)]
pub fn add_doctor(
    state: &mut Clinic,
    principal_str: String,
    fname: String,
    lname: String,
    dob: String,
    specialism: String,
    licence_no: u64,
    id_no: u64,
    sex: String,
    country: String,
    city: String,
) -> (r: Result<Doctor, Error>)
    requires
        old(state).wf(),
        old(state).next_id < u64::MAX,
    ensures
        final(state).wf(),
        ({
            let pre = *old(state);
            let invalid = principal_str@.len() == 0 || fname@.len() == 0 || lname@.len() == 0
                || dob@.len() == 0 || specialism@.len() == 0 || sex@.len() == 0
                || country@.len() == 0 || city@.len() == 0;
            if invalid {
                *final(state) == pre && (r matches Err(Error::InvalidInput { msg })
                    && msg@ == "All fields must be filled"@)
            } else if doctor_principal_taken(pre.doctors@, principal_str@) {
                *final(state) == pre && (r matches Err(Error::AlreadyExists { msg })
                    && msg@ == "Principal already exists"@)
            } else {
                &&& (r matches Ok(d) && {
                    &&& d.id == pre.next_id
                    &&& d.principal_str == principal_str
                    &&& d.fname == fname
                    &&& d.lname == lname
                    &&& d.dob == dob
                    &&& d.specialism == specialism
                    &&& d.licence_no == licence_no
                    &&& d.id_no == id_no
                    &&& d.sex == sex
                    &&& d.country == country
                    &&& d.city == city
                    &&& final(state).doctors@ == pre.doctors@.push(d)
                })
                &&& final(state).next_id == pre.next_id + 1
                &&& final(state).patients == pre.patients
                &&& final(state).appointments == pre.appointments
                &&& final(state).messages == pre.messages
                &&& final(state).medical_records == pre.medical_records
                &&& final(state).reports == pre.reports
                &&& final(state).identities == pre.identities
                &&& final(state).docidentities == pre.docidentities
                &&& final(state).calendlies == pre.calendlies
                &&& final(state).availabilities == pre.availabilities
                &&& final(state).datas == pre.datas
            }
        }),
{
    if principal_str.as_str().is_empty() || fname.as_str().is_empty() || lname.as_str().is_empty()
        || dob.as_str().is_empty() || specialism.as_str().is_empty() || sex.as_str().is_empty()
        || country.as_str().is_empty() || city.as_str().is_empty() {
        return Result::Err(Error::InvalidInput { msg: "All fields must be filled".to_owned() });
    }
    let n = state.doctors.len();
    let mut i: usize = 0;
    while i < n
        invariant
            i <= n,
            n == state.doctors@.len(),
            *state == *old(state),
            forall|m: int| 0 <= m < i ==> #[trigger] state.doctors@[m].principal_str@
                != principal_str@,
        decreases n - i,
    {
        if state.doctors[i].principal_str == principal_str {
            proof {
                assert(state.doctors@[i as int].principal_str@ == principal_str@);
                assert(doctor_principal_taken(state.doctors@, principal_str@));
            }
            return Result::Err(Error::AlreadyExists { msg: "Principal already exists".to_owned() });
        }
        i = i + 1;
    }
    let id = generate_id(state);
    let doctor = Doctor {
        id,
        principal_str,
        fname,
        lname,
        dob,
        specialism,
        licence_no,
        id_no,
        sex,
        country,
        city,
    };
    let stored = doctor.clone();
    store_insert(&mut state.doctors, stored);
    Result::Ok(doctor)
}

/// Update the doctor whose identifier is the principal string read as a
/// decimal number (an optional leading plus sign, then digits).  All other
/// text fields must be filled.  The stored record carries the canonical
/// decimal rendering of that identifier as its principal string, and the
/// doctor's existence is checked against the parsed identifier only.
pub fn update_doctor(
    state: &mut Clinic,
    principal_str: String,
    fname: String,
    lname: String,
    dob: String,
    specialism: String,
    licence_no: u64,
    id_no: u64,
    sex: String,
    country: String,
    city: String,
) -> (r: Result<Doctor, Error>)
    requires
        old(state).wf(),
    ensures
        final(state).wf(),
        final(state).next_id == old(state).next_id,
        final(state).patients == old(state).patients,
        final(state).appointments == old(state).appointments,
        final(state).messages == old(state).messages,
        final(state).medical_records == old(state).medical_records,
        final(state).reports == old(state).reports,
        final(state).identities == old(state).identities,
        final(state).docidentities == old(state).docidentities,
        final(state).calendlies == old(state).calendlies,
        final(state).availabilities == old(state).availabilities,
        final(state).datas == old(state).datas,
        ({
            let pre = *old(state);
            let ds = dec_digits_of(principal_str@);
            let invalid = fname@.len() == 0 || lname@.len() == 0 || dob@.len() == 0
                || specialism@.len() == 0 || sex@.len() == 0 || country@.len() == 0
                || city@.len() == 0;
            let parses = ds.len() > 0 && all_dec_digits(ds) && dec_value(ds) <= u64::MAX;
            if invalid {
                final(state).doctors@ == pre.doctors@ && (r matches Err(Error::InvalidInput { msg })
                    && msg@ == "All fields must be provided"@)
            } else if !parses {
                final(state).doctors@ == pre.doctors@ && (r matches Err(Error::InvalidInput { msg })
                    && msg@ == "Invalid Identity ID format"@)
            } else if !has_key(pre.doctors@, dec_value(ds) as u64) {
                final(state).doctors@ == pre.doctors@ && (r matches Err(Error::NotFound { msg })
                    && msg@ == "Doctor with this Identity ID does not exist"@)
            } else {
                r matches Ok(d) && {
                    &&& d.id == dec_value(ds) as u64
                    &&& all_dec_digits(d.principal_str@)
                    &&& d.principal_str@.len() > 0
                    &&& dec_value(d.principal_str@) == d.id
                    &&& (d.principal_str@.len() > 1 ==> digit_value(d.principal_str@[0]) != 0)
                    &&& d.fname == fname
                    &&& d.lname == lname
                    &&& d.dob == dob
                    &&& d.specialism == specialism
                    &&& d.licence_no == licence_no
                    &&& d.id_no == id_no
                    &&& d.sex == sex
                    &&& d.country == country
                    &&& d.city == city
                    &&& final(state).doctors@ == pre.doctors@.update(
                        key_index(pre.doctors@, d.id),
                        d,
                    )
                }
            }
        }),
{
    if fname.as_str().is_empty() || lname.as_str().is_empty() || dob.as_str().is_empty()
        || specialism.as_str().is_empty() || sex.as_str().is_empty() || country.as_str().is_empty()
        || city.as_str().is_empty() {
        return Result::Err(Error::InvalidInput { msg: "All fields must be provided".to_owned() });
    }
    let identity_id = match parse_u64(principal_str.as_str()) {
        Option::Some(v) => v,
        Option::None => {
            return Result::Err(
                Error::InvalidInput { msg: "Invalid Identity ID format".to_owned() },
            );
        },
    };
    if store_get(&state.doctors, identity_id).is_none() {
        return Result::Err(
            Error::NotFound { msg: "Doctor with this Identity ID does not exist".to_owned() },
        );
    }
    let ghost pre = *state;
    let updated_doctor = Doctor {
        id: identity_id,
        principal_str: u64_to_string(identity_id),
        fname,
        lname,
        dob,
        specialism,
        licence_no,
        id_no,
        sex,
        country,
        city,
    };
    let stored = updated_doctor.clone();
    store_insert(&mut state.doctors, stored);
    proof {
        let k = key_index(pre.doctors@, identity_id);
        assert forall|m: int|
            0 <= m < state.doctors@.len()
            implies #[trigger] state.doctors@[m].key() < state.next_id by {
            assert(pre.doctors@[m].key() < pre.next_id);
            if m != k {
                assert(state.doctors@[m] == pre.doctors@[m]);
            } else {
                assert(pre.doctors@[k].key() == identity_id);
            }
        }
    }
    Result::Ok(updated_doctor)
}

/// Look a doctor up, reporting absence as `NotFound`.
pub fn get_doctor(state: &Clinic, docidentity_id: u64) -> (r: Result<Doctor, Error>)
    requires
        state.wf(),
    ensures
        (match r {
            Ok(d) => has_key(state.doctors@, docidentity_id) && d == record_at(
                state.doctors@,
                docidentity_id,
            ),
            Err(e) => !has_key(state.doctors@, docidentity_id) && (e matches Error::NotFound { msg }
                && msg@ == "doctor not found"@),
        }),
{
    match get_doctor_by_id(state, &docidentity_id) {
        Option::Some(doctor) => Result::Ok(doctor),
        Option::None => Result::Err(Error::NotFound { msg: "doctor not found".to_owned() }),
    }
}

/// Remove a doctor record by identifier.
pub fn delete_doctor(state: &mut Clinic, doctor_id: u64) -> (r: Result<(), Error>)
    requires
        old(state).wf(),
    ensures
        final(state).wf(),
        final(state).next_id == old(state).next_id,
        final(state).patients == old(state).patients,
        final(state).appointments == old(state).appointments,
        final(state).messages == old(state).messages,
        final(state).medical_records == old(state).medical_records,
        final(state).reports == old(state).reports,
        final(state).identities == old(state).identities,
        final(state).docidentities == old(state).docidentities,
        final(state).calendlies == old(state).calendlies,
        final(state).availabilities == old(state).availabilities,
        final(state).datas == old(state).datas,
        (if has_key(old(state).doctors@, doctor_id) {
            r is Ok && final(state).doctors@ == old(state).doctors@.remove(
                crate::storage::key_index(old(state).doctors@, doctor_id),
            )
        } else {
            final(state).doctors@ == old(state).doctors@ && (r matches Err(Error::NotFound { msg })
                && msg@ == "doctor not found"@)
        }),
{
    match store_remove(&mut state.doctors, doctor_id) {
        Option::Some(_) => Result::Ok(()),
        Option::None => Result::Err(Error::NotFound { msg: "doctor not found".to_owned() }),
    }
}

/// All doctor records in ascending identifier order.
pub fn list_doctors(state: &Clinic) -> (r: Vec<Doctor>)
    ensures
        r@ == state.doctors@,
{
    let r = state.doctors.clone();
    proof {
        assert forall|i: int| 0 <= i < r@.len() implies r@[i] == state.doctors@[i] by {}
        assert(r@ =~= state.doctors@);
    }
    r
}

/// The stored doctor under this identifier, if any.
pub fn get_doctor_by_id(state: &Clinic, docidentity_id: &u64) -> (r: Option<Doctor>)
    requires
        state.wf(),
    ensures
        (match r {
            Option::Some(d) => has_key(state.doctors@, *docidentity_id) && d == record_at(
                state.doctors@,
                *docidentity_id,
            ),
            Option::None => !has_key(state.doctors@, *docidentity_id),
        }),
{
    match store_get(&state.doctors, *docidentity_id) {
        Option::Some(d) => Option::Some(d.clone()),
        Option::None => Option::None,
    }
}

} // verus!
