//! Medical records, stored under caller-chosen identifiers.

use vstd::prelude::*;

use crate::error::Error;
use crate::models::Keyed;
use crate::models::MedicalRecord;
use crate::storage::has_key;
use crate::storage::key_index;
use crate::storage::record_at;
use crate::storage::store_get;
use crate::storage::store_insert;
use crate::storage::store_remove;
use crate::storage::upserted;
use crate::storage::Clinic;
use crate::utils::chars_of;

verus! {

/// What `char::is_whitespace` returns for a character: a function of the
/// character alone.
pub uninterp spec fn is_space(c: char) -> bool;

/// Relies on `char::is_whitespace`: whether the character has the Unicode
/// whitespace property.
#[verifier::external_body]
fn char_is_whitespace(c: char) -> (r: bool)
    ensures
        r == is_space(c),
{
    c.is_whitespace()
}

/// The text is empty or entirely whitespace: exactly when trimming it
/// leaves nothing.
pub open spec fn blank(s: Seq<char>) -> bool {
    forall|i: int| 0 <= i < s.len() ==> is_space(#[trigger] s[i])
}

/// Whether the text trims down to nothing.
#[verifier::loop_isolation(false)]
pub fn is_blank_text(s: &str) -> (r: bool)
    ensures
        r == blank(s@),
{
    let cs = chars_of(s);
    let n = cs.len();
    let mut i: usize = 0;
    while i < n
        invariant
            i <= n,
            n == cs@.len(),
            cs@ == s@,
            forall|m: int| 0 <= m < i ==> is_space(#[trigger] s@[m]),
        decreases n - i,
    {
        if !char_is_whitespace(cs[i]) {
            return false;
        }
        i = i + 1;
    }
    true
}

/// Look a medical record up, reporting absence as `NotFound`.
pub fn get_medical_record(state: &Clinic, record_id: u64) -> (r: Result<MedicalRecord, Error>)
    requires
        state.wf(),
    ensures
        (match r {
            Ok(m) => has_key(state.medical_records@, record_id) && m == record_at(
                state.medical_records@,
                record_id,
            ),
            Err(e) => !has_key(state.medical_records@, record_id) && (e matches Error::NotFound {
                msg,
            } && msg@ == "medical record not found"@),
        }),
{
    match get_medical_record_by_id(state, &record_id) {
        Option::Some(record) => Result::Ok(record),
        Option::None => Result::Err(Error::NotFound { msg: "medical record not found".to_owned() }),
    }
}

/// Store a medical record under the caller's identifier.  Both text fields
/// must contain something beyond whitespace.  The record is written before
/// the identifier is checked: a taken identifier is reported as
/// `AlreadyExists` even though the new record has replaced the old one.
pub fn create_medical_record(
    state: &mut Clinic,
    record_id: u64,
    patient_id: u64,
    lab_results: String,
    treatment_history: String,
) -> (r: Result<MedicalRecord, Error>)
    requires
        old(state).wf(),
    ensures
        final(state).wf(),
        ({
            let pre = *old(state);
            if blank(lab_results@) || blank(treatment_history@) {
                *final(state) == pre && (r matches Err(Error::InvalidInput { msg })
                    && msg@ == "Lab results and treatment history cannot be empty"@)
            } else {
                let stored = record_at(final(state).medical_records@, record_id);
                &&& has_key(final(state).medical_records@, record_id)
                &&& stored.id == record_id
                &&& stored.patient_id == patient_id
                &&& stored.lab_results == lab_results
                &&& stored.treatment_history == treatment_history
                &&& upserted(pre.medical_records@, final(state).medical_records@, stored)
                &&& (if has_key(pre.medical_records@, record_id) {
                    r matches Err(Error::AlreadyExists { msg })
                        && msg@ == "medical record already exists"@
                } else {
                    r matches Ok(m) && {
                        &&& m.id == record_id
                        &&& m.patient_id == patient_id
                        &&& m.lab_results == lab_results
                        &&& m.treatment_history == treatment_history
                    }
                })
                &&& final(state).next_id == pre.next_id
                &&& final(state).patients == pre.patients
                &&& final(state).doctors == pre.doctors
                &&& final(state).appointments == pre.appointments
                &&& final(state).messages == pre.messages
                &&& final(state).reports == pre.reports
                &&& final(state).identities == pre.identities
                &&& final(state).docidentities == pre.docidentities
                &&& final(state).calendlies == pre.calendlies
                &&& final(state).availabilities == pre.availabilities
                &&& final(state).datas == pre.datas
            }
        }),
{
    if is_blank_text(lab_results.as_str()) || is_blank_text(treatment_history.as_str()) {
        return Result::Err(
            Error::InvalidInput { msg: "Lab results and treatment history cannot be empty".to_owned() },
        );
    }
    let new_record = MedicalRecord { id: record_id, patient_id, lab_results, treatment_history };
    let stored = new_record.clone();
    match store_insert(&mut state.medical_records, stored) {
        Option::Some(_) => Result::Err(
            Error::AlreadyExists { msg: "medical record already exists".to_owned() },
        ),
        Option::None => Result::Ok(new_record),
    }
}

/// Replace a stored medical record wholesale.  Both text fields must
/// contain something beyond whitespace.  The record is written before the
/// identifier is checked, so an unknown identifier is reported as
/// `NotFound` even though the record is now stored under it.
pub fn update_medical_record(
    state: &mut Clinic,
    record_id: u64,
    patient_id: u64,
    lab_results: String,
    treatment_history: String,
) -> (r: Result<MedicalRecord, Error>)
    requires
        old(state).wf(),
    ensures
        final(state).wf(),
        final(state).next_id == old(state).next_id,
        final(state).patients == old(state).patients,
        final(state).doctors == old(state).doctors,
        final(state).appointments == old(state).appointments,
        final(state).messages == old(state).messages,
        final(state).reports == old(state).reports,
        final(state).identities == old(state).identities,
        final(state).docidentities == old(state).docidentities,
        final(state).calendlies == old(state).calendlies,
        final(state).availabilities == old(state).availabilities,
        final(state).datas == old(state).datas,
        ({
            let pre = *old(state);
            if blank(lab_results@) || blank(treatment_history@) {
                final(state).medical_records@ == pre.medical_records@ && (r matches Err(
                    Error::InvalidInput { msg },
                ) && msg@ == "Lab results and treatment history cannot be empty"@)
            } else {
                let stored = record_at(final(state).medical_records@, record_id);
                &&& has_key(final(state).medical_records@, record_id)
                &&& stored.id == record_id
                &&& stored.patient_id == patient_id
                &&& stored.lab_results == lab_results
                &&& stored.treatment_history == treatment_history
                &&& upserted(pre.medical_records@, final(state).medical_records@, stored)
                &&& (if has_key(pre.medical_records@, record_id) {
                    r matches Ok(m) && {
                        &&& m.id == record_id
                        &&& m.patient_id == patient_id
                        &&& m.lab_results == lab_results
                        &&& m.treatment_history == treatment_history
                    }
                } else {
                    r matches Err(Error::NotFound { msg }) && msg@ == "medical record not found"@
                })
            }
        }),
{
    if is_blank_text(lab_results.as_str()) || is_blank_text(treatment_history.as_str()) {
        return Result::Err(
            Error::InvalidInput { msg: "Lab results and treatment history cannot be empty".to_owned() },
        );
    }
    let updated_record = MedicalRecord { id: record_id, patient_id, lab_results, treatment_history };
    let stored = updated_record.clone();
    match store_insert(&mut state.medical_records, stored) {
        Option::Some(_) => Result::Ok(updated_record),
        Option::None => Result::Err(Error::NotFound { msg: "medical record not found".to_owned() }),
    }
}

/// Remove a medical record; identifier zero is rejected outright.
pub fn delete_medical_record(state: &mut Clinic, record_id: u64) -> (r: Result<(), Error>)
    requires
        old(state).wf(),
    ensures
        final(state).wf(),
        final(state).next_id == old(state).next_id,
        final(state).patients == old(state).patients,
        final(state).doctors == old(state).doctors,
        final(state).appointments == old(state).appointments,
        final(state).messages == old(state).messages,
        final(state).reports == old(state).reports,
        final(state).identities == old(state).identities,
        final(state).docidentities == old(state).docidentities,
        final(state).calendlies == old(state).calendlies,
        final(state).availabilities == old(state).availabilities,
        final(state).datas == old(state).datas,
        (if record_id == 0 {
            final(state).medical_records@ == old(state).medical_records@ && (r matches Err(
                Error::InvalidInput { msg },
            ) && msg@ == "Record ID cannot be zero"@)
        } else if has_key(old(state).medical_records@, record_id) {
            r is Ok && final(state).medical_records@ == old(state).medical_records@.remove(
                key_index(old(state).medical_records@, record_id),
            )
        } else {
            final(state).medical_records@ == old(state).medical_records@ && (r matches Err(
                Error::NotFound { msg },
            ) && msg@ == "medical record not found"@)
        }),
{
    if record_id == 0 {
        return Result::Err(Error::InvalidInput { msg: "Record ID cannot be zero".to_owned() });
    }
    match store_remove(&mut state.medical_records, record_id) {
        Option::Some(_) => Result::Ok(()),
        Option::None => Result::Err(Error::NotFound { msg: "medical record not found".to_owned() }),
    }
}

/// All medical records in ascending identifier order.
pub fn list_medical_records(state: &Clinic) -> (r: Vec<MedicalRecord>)
    ensures
        r@ == state.medical_records@,
{
    let r = state.medical_records.clone();
    proof {
        assert forall|i: int| 0 <= i < r@.len() implies r@[i] == state.medical_records@[i] by {}
        assert(r@ =~= state.medical_records@);
    }
    r
}

/// The stored medical record under this identifier, if any.
pub fn get_medical_record_by_id(state: &Clinic, record_id: &u64) -> (r: Option<MedicalRecord>)
    requires
        state.wf(),
    ensures
        (match r {
            Option::Some(m) => has_key(state.medical_records@, *record_id) && m == record_at(
                state.medical_records@,
                *record_id,
            ),
            Option::None => !has_key(state.medical_records@, *record_id),
        }),
{
    match store_get(&state.medical_records, *record_id) {
        Option::Some(m) => Option::Some(m.clone()),
        Option::None => Option::None,
    }
}

} // verus!
