//! Diagnostic reports attached to patients.

use vstd::prelude::*;

use crate::error::Error;
use crate::models::report_like;
use crate::models::Keyed;
use crate::models::MultiMediaContent;
use crate::models::Report;
use crate::storage::has_key;
use crate::storage::key_index;
use crate::storage::record_at;
use crate::storage::store_get;
use crate::storage::store_insert;
use crate::storage::store_remove;
use crate::storage::upserted;
use crate::storage::Clinic;
use crate::utils::generate_id;

verus! {

/// Store a report under a fresh identifier; all text fields must be filled
/// and the patient known.
pub fn add_report(
    state: &mut Clinic,
    patient_id: u64,
    username: String,
    symptoms: String,
    diagnostic: String,
    prescription: String,
    recommendations: String,
    multimedia_content: Option<MultiMediaContent>,
) -> (r: Result<Report, Error>)
    requires
        old(state).wf(),
        old(state).next_id < u64::MAX,
    ensures
        final(state).wf(),
        ({
            let pre = *old(state);
            let invalid = username@.len() == 0 || symptoms@.len() == 0 || diagnostic@.len() == 0
                || prescription@.len() == 0 || recommendations@.len() == 0;
            if invalid {
                *final(state) == pre && (r matches Err(Error::InvalidInput { msg })
                    && msg@ == "All fields must be provided"@)
            } else if !has_key(pre.patients@, patient_id) {
                *final(state) == pre && (r matches Err(Error::NotFound { msg })
                    && msg@ == "patient not found"@)
            } else {
                &&& (r matches Ok(p) && {
                    &&& p.id == pre.next_id
                    &&& p.patient_id == patient_id
                    &&& p.username == username
                    &&& p.symptoms == symptoms
                    &&& p.diagnostic == diagnostic
                    &&& p.prescription == prescription
                    &&& p.recommendations == recommendations
                    &&& p.multimedia_content == multimedia_content
                    &&& has_key(final(state).reports@, pre.next_id)
                    &&& report_like(p, record_at(final(state).reports@, pre.next_id))
                    &&& upserted(
                        pre.reports@,
                        final(state).reports@,
                        record_at(final(state).reports@, pre.next_id),
                    )
                })
                &&& final(state).next_id == pre.next_id + 1
                &&& final(state).patients == pre.patients
                &&& final(state).doctors == pre.doctors
                &&& final(state).appointments == pre.appointments
                &&& final(state).messages == pre.messages
                &&& final(state).medical_records == pre.medical_records
                &&& final(state).identities == pre.identities
                &&& final(state).docidentities == pre.docidentities
                &&& final(state).calendlies == pre.calendlies
                &&& final(state).availabilities == pre.availabilities
                &&& final(state).datas == pre.datas
            }
        }),
{
    if username.as_str().is_empty() || symptoms.as_str().is_empty() || diagnostic.as_str().is_empty()
        || prescription.as_str().is_empty() || recommendations.as_str().is_empty() {
        return Result::Err(Error::InvalidInput { msg: "All fields must be provided".to_owned() });
    }
    if store_get(&state.patients, patient_id).is_none() {
        return Result::Err(Error::NotFound { msg: "patient not found".to_owned() });
    }
    let id = generate_id(state);
    let report = Report {
        id,
        patient_id,
        username,
        symptoms,
        diagnostic,
        prescription,
        recommendations,
        multimedia_content,
    };
    let stored = report.clone();
    store_insert(&mut state.reports, stored);
    Result::Ok(report)
}

/// Look a report up, reporting absence as `NotFound`.
pub fn get_report(state: &Clinic, report_id: u64) -> (r: Result<Report, Error>)
    requires
        state.wf(),
    ensures
        (match r {
            Ok(p) => has_key(state.reports@, report_id) && report_like(
                record_at(state.reports@, report_id),
                p,
            ),
            Err(e) => !has_key(state.reports@, report_id) && (e matches Error::NotFound { msg }
                && msg@ == "report not found"@),
        }),
{
    match get_report_by_id(state, &report_id) {
        Option::Some(report) => Result::Ok(report),
        Option::None => Result::Err(Error::NotFound { msg: "report not found".to_owned() }),
    }
}

/// Replace a stored report wholesale; the text fields are validated as at
/// creation.  The record is written before the identifier is checked, so
/// an unknown identifier is reported as `NotFound` even though the record
/// is now stored under it.
pub fn update_report(
    state: &mut Clinic,
    report_id: u64,
    patient_id: u64,
    username: String,
    symptoms: String,
    diagnostic: String,
    prescription: String,
    recommendations: String,
    multimedia_content: Option<MultiMediaContent>,
) -> (r: Result<Report, Error>)
    requires
        old(state).wf(),
    ensures
        final(state).wf(),
        final(state).next_id == old(state).next_id,
        final(state).patients == old(state).patients,
        final(state).doctors == old(state).doctors,
        final(state).appointments == old(state).appointments,
        final(state).messages == old(state).messages,
        final(state).medical_records == old(state).medical_records,
        final(state).identities == old(state).identities,
        final(state).docidentities == old(state).docidentities,
        final(state).calendlies == old(state).calendlies,
        final(state).availabilities == old(state).availabilities,
        final(state).datas == old(state).datas,
        ({
            let pre = *old(state);
            let invalid = username@.len() == 0 || symptoms@.len() == 0 || diagnostic@.len() == 0
                || prescription@.len() == 0 || recommendations@.len() == 0;
            if invalid {
                final(state).reports@ == pre.reports@ && (r matches Err(Error::InvalidInput { msg })
                    && msg@ == "All fields must be provided"@)
            } else {
                let stored = record_at(final(state).reports@, report_id);
                &&& has_key(final(state).reports@, report_id)
                &&& stored.id == report_id
                &&& stored.patient_id == patient_id
                &&& stored.username == username
                &&& stored.symptoms == symptoms
                &&& stored.diagnostic == diagnostic
                &&& stored.prescription == prescription
                &&& stored.recommendations == recommendations
                &&& crate::models::mm_opt_like(stored.multimedia_content, multimedia_content)
                &&& upserted(pre.reports@, final(state).reports@, stored)
                &&& (if has_key(pre.reports@, report_id) {
                    r matches Ok(p) && {
                        &&& p.id == report_id
                        &&& p.patient_id == patient_id
                        &&& p.username == username
                        &&& p.symptoms == symptoms
                        &&& p.diagnostic == diagnostic
                        &&& p.prescription == prescription
                        &&& p.recommendations == recommendations
                        &&& p.multimedia_content == multimedia_content
                        &&& report_like(p, stored)
                    }
                } else {
                    r matches Err(Error::NotFound { msg }) && msg@ == "report not found"@
                })
            }
        }),
{
    if username.as_str().is_empty() || symptoms.as_str().is_empty() || diagnostic.as_str().is_empty()
        || prescription.as_str().is_empty() || recommendations.as_str().is_empty() {
        return Result::Err(Error::InvalidInput { msg: "All fields must be provided".to_owned() });
    }
    let updated_report = Report {
        id: report_id,
        patient_id,
        username,
        symptoms,
        diagnostic,
        prescription,
        recommendations,
        multimedia_content,
    };
    let stored = updated_report.clone();
    match store_insert(&mut state.reports, stored) {
        Option::Some(_) => Result::Ok(updated_report),
        Option::None => Result::Err(Error::NotFound { msg: "report not found".to_owned() }),
    }
}

/// Remove a report by identifier.
pub fn delete_report(state: &mut Clinic, report_id: u64) -> (r: Result<(), Error>)
    requires
        old(state).wf(),
    ensures
        final(state).wf(),
        final(state).next_id == old(state).next_id,
        final(state).patients == old(state).patients,
        final(state).doctors == old(state).doctors,
        final(state).appointments == old(state).appointments,
        final(state).messages == old(state).messages,
        final(state).medical_records == old(state).medical_records,
        final(state).identities == old(state).identities,
        final(state).docidentities == old(state).docidentities,
        final(state).calendlies == old(state).calendlies,
        final(state).availabilities == old(state).availabilities,
        final(state).datas == old(state).datas,
        (if has_key(old(state).reports@, report_id) {
            r is Ok && final(state).reports@ == old(state).reports@.remove(
                key_index(old(state).reports@, report_id),
            )
        } else {
            final(state).reports@ == old(state).reports@ && (r matches Err(Error::NotFound { msg })
                && msg@ == "report not found"@)
        }),
{
    match store_remove(&mut state.reports, report_id) {
        Option::Some(_) => Result::Ok(()),
        Option::None => Result::Err(Error::NotFound { msg: "report not found".to_owned() }),
    }
}

/// All reports in ascending identifier order.
pub fn list_reports(state: &Clinic) -> (r: Vec<Report>)
    ensures
        r@.len() == state.reports@.len(),
        forall|i: int| 0 <= i < r@.len() ==> report_like(state.reports@[i], #[trigger] r@[i]),
{
    let r = state.reports.clone();
    proof {
        assert forall|i: int| 0 <= i < r@.len() implies report_like(
            state.reports@[i],
            #[trigger] r@[i],
        ) by {
            assert(vstd::pervasive::cloned::<Report>(state.reports@[i], r@[i]));
        }
    }
    r
}

/// The stored report under this identifier, if any.
pub fn get_report_by_id(state: &Clinic, report_id: &u64) -> (r: Option<Report>)
    requires
        state.wf(),
    ensures
        (match r {
            Option::Some(p) => has_key(state.reports@, *report_id) && report_like(
                record_at(state.reports@, *report_id),
                p,
            ),
            Option::None => !has_key(state.reports@, *report_id),
        }),
{
    match store_get(&state.reports, *report_id) {
        Option::Some(p) => Option::Some(p.clone()),
        Option::None => Option::None,
    }
}

} // verus!
