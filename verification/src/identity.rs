//! Identity stores for patients and doctors.

use vstd::prelude::*;

use crate::error::Error;
use crate::models::DocIdentity;
use crate::models::Identity;
use crate::models::Keyed;
use crate::storage::has_key;
use crate::storage::key_index;
use crate::storage::record_at;
use crate::storage::store_get;
use crate::storage::store_insert;
use crate::storage::store_remove;
use crate::storage::Clinic;
use crate::utils::generate_id;

verus! {

/// Some stored identity already uses this principal string.
pub open spec fn identity_principal_taken(s: Seq<Identity>, principal: Seq<char>) -> bool {
    exists|i: int| 0 <= i < s.len() && #[trigger] s[i].principal@ == principal
}

/// Some stored doctor identity already uses this principal string.
pub open spec fn docidentity_principal_taken(s: Seq<DocIdentity>, principal: Seq<char>) -> bool {
    exists|i: int| 0 <= i < s.len() && #[trigger] s[i].principal@ == principal
}

/// Register a patient identity under a fresh identifier; the principal
/// string must be filled and new.
#[verifier::loop_isolation(false)]
pub fn add_identity(state: &mut Clinic, principal: String) -> (r: Result<Identity, Error>)
    requires
        old(state).wf(),
        old(state).next_id < u64::MAX,
    ensures
        final(state).wf(),
        ({
            let pre = *old(state);
            if principal@.len() == 0 {
                *final(state) == pre && (r matches Err(Error::InvalidInput { msg })
                    && msg@ == "Principal cannot be empty"@)
            } else if identity_principal_taken(pre.identities@, principal@) {
                *final(state) == pre && (r matches Err(Error::AlreadyExists { msg })
                    && msg@ == "Principal already exists"@)
            } else {
                &&& (r matches Ok(p) && {
                    &&& p.id == pre.next_id
                    &&& p.principal == principal
                    &&& final(state).identities@ == pre.identities@.push(p)
                })
                &&& final(state).next_id == pre.next_id + 1
                &&& final(state).patients == pre.patients
                &&& final(state).doctors == pre.doctors
                &&& final(state).appointments == pre.appointments
                &&& final(state).messages == pre.messages
                &&& final(state).medical_records == pre.medical_records
                &&& final(state).reports == pre.reports
                &&& final(state).docidentities == pre.docidentities
                &&& final(state).calendlies == pre.calendlies
                &&& final(state).availabilities == pre.availabilities
                &&& final(state).datas == pre.datas
            }
        }),
{
    if principal.as_str().is_empty() {
        return Result::Err(Error::InvalidInput { msg: "Principal cannot be empty".to_owned() });
    }
    let n = state.identities.len();
    let mut i: usize = 0;
    while i < n
        invariant
            i <= n,
            n == state.identities@.len(),
            *state == *old(state),
            forall|m: int| 0 <= m < i ==> #[trigger] state.identities@[m].principal@ != principal@,
        decreases n - i,
    {
        if state.identities[i].principal == principal {
            proof {
                assert(identity_principal_taken(state.identities@, principal@));
            }
            return Result::Err(Error::AlreadyExists { msg: "Principal already exists".to_owned() });
        }
        i = i + 1;
    }
    let id = generate_id(state);
    let identity = Identity { id, principal };
    let stored = identity.clone();
    store_insert(&mut state.identities, stored);
    Result::Ok(identity)
}

/// Look a patient identity up, reporting absence as `NotFound`.
pub fn get_identity(state: &Clinic, identity_id: u64) -> (r: Result<Identity, Error>)
    requires
        state.wf(),
    ensures
        (match r {
            Ok(p) => has_key(state.identities@, identity_id) && p == record_at(
                state.identities@,
                identity_id,
            ),
            Err(e) => !has_key(state.identities@, identity_id) && (e matches Error::NotFound { msg }
                && msg@ == "identity not found"@),
        }),
{
    match get_identity_by_id(state, &identity_id) {
        Option::Some(identity) => Result::Ok(identity),
        Option::None => Result::Err(Error::NotFound { msg: "identity not found".to_owned() }),
    }
}

/// All patient identities in ascending identifier order.
pub fn list_identities(state: &Clinic) -> (r: Vec<Identity>)
    ensures
        r@ == state.identities@,
{
    let r = state.identities.clone();
    proof {
        assert forall|i: int| 0 <= i < r@.len() implies r@[i] == state.identities@[i] by {}
        assert(r@ =~= state.identities@);
    }
    r
}

/// Remove a patient identity by identifier.
pub fn delete_identity(state: &mut Clinic, identity_id: u64) -> (r: Result<(), Error>)
    requires
        old(state).wf(),
    ensures
        final(state).wf(),
        final(state).next_id == old(state).next_id,
        final(state).patients == old(state).patients,
        final(state).doctors == old(state).doctors,
        final(state).appointments == old(state).appointments,
        final(state).messages == old(state).messages,
        final(state).medical_records == old(state).medical_records,
        final(state).reports == old(state).reports,
        final(state).docidentities == old(state).docidentities,
        final(state).calendlies == old(state).calendlies,
        final(state).availabilities == old(state).availabilities,
        final(state).datas == old(state).datas,
        (if has_key(old(state).identities@, identity_id) {
            r is Ok && final(state).identities@ == old(state).identities@.remove(
                key_index(old(state).identities@, identity_id),
            )
        } else {
            final(state).identities@ == old(state).identities@ && (r matches Err(Error::NotFound {
                msg,
            }) && msg@ == "identity not found"@)
        }),
{
    match store_remove(&mut state.identities, identity_id) {
        Option::Some(_) => Result::Ok(()),
        Option::None => Result::Err(Error::NotFound { msg: "identity not found".to_owned() }),
    }
}

/// Whether any stored patient identity carries this principal string.
#[verifier::loop_isolation(false)]
pub fn does_identity_exist(state: &Clinic, input_principal: String) -> (r: bool)
    ensures
        r == identity_principal_taken(state.identities@, input_principal@),
{
    let n = state.identities.len();
    let mut i: usize = 0;
    while i < n
        invariant
            i <= n,
            n == state.identities@.len(),
            forall|m: int| 0 <= m < i ==> #[trigger] state.identities@[m].principal@
                != input_principal@,
        decreases n - i,
    {
        if state.identities[i].principal == input_principal {
            proof {
                assert(identity_principal_taken(state.identities@, input_principal@));
            }
            return true;
        }
        i = i + 1;
    }
    false
}

/// Register a doctor identity under a fresh identifier; the principal
/// string must be filled and new.
#[verifier::loop_isolation(false)]
pub fn add_docidentity(state: &mut Clinic, principal: String) -> (r: Result<DocIdentity, Error>)
    requires
        old(state).wf(),
        old(state).next_id < u64::MAX,
    ensures
        final(state).wf(),
        ({
            let pre = *old(state);
            if principal@.len() == 0 {
                *final(state) == pre && (r matches Err(Error::InvalidInput { msg })
                    && msg@ == "Principal cannot be empty"@)
            } else if docidentity_principal_taken(pre.docidentities@, principal@) {
                *final(state) == pre && (r matches Err(Error::AlreadyExists { msg })
                    && msg@ == "Principal already exists"@)
            } else {
                &&& (r matches Ok(p) && {
                    &&& p.id == pre.next_id
                    &&& p.principal == principal
                    &&& final(state).docidentities@ == pre.docidentities@.push(p)
                })
                &&& final(state).next_id == pre.next_id + 1
                &&& final(state).patients == pre.patients
                &&& final(state).doctors == pre.doctors
                &&& final(state).appointments == pre.appointments
                &&& final(state).messages == pre.messages
                &&& final(state).medical_records == pre.medical_records
                &&& final(state).reports == pre.reports
                &&& final(state).identities == pre.identities
                &&& final(state).calendlies == pre.calendlies
                &&& final(state).availabilities == pre.availabilities
                &&& final(state).datas == pre.datas
            }
        }),
{
    if principal.as_str().is_empty() {
        return Result::Err(Error::InvalidInput { msg: "Principal cannot be empty".to_owned() });
    }
    let n = state.docidentities.len();
    let mut i: usize = 0;
    while i < n
        invariant
            i <= n,
            n == state.docidentities@.len(),
            *state == *old(state),
            forall|m: int| 0 <= m < i ==> #[trigger] state.docidentities@[m].principal@
                != principal@,
        decreases n - i,
    {
        if state.docidentities[i].principal == principal {
            proof {
                assert(docidentity_principal_taken(state.docidentities@, principal@));
            }
            return Result::Err(Error::AlreadyExists { msg: "Principal already exists".to_owned() });
        }
        i = i + 1;
    }
    let id = generate_id(state);
    let docidentity = DocIdentity { id, principal };
    let stored = docidentity.clone();
    store_insert(&mut state.docidentities, stored);
    Result::Ok(docidentity)
}

/// Look a doctor identity up, reporting absence as `NotFound`.
pub fn get_docidentity(state: &Clinic, docidentity_id: u64) -> (r: Result<DocIdentity, Error>)
    requires
        state.wf(),
    ensures
        (match r {
            Ok(p) => has_key(state.docidentities@, docidentity_id) && p == record_at(
                state.docidentities@,
                docidentity_id,
            ),
            Err(e) => !has_key(state.docidentities@, docidentity_id) && (e matches Error::NotFound {
                msg,
            } && msg@ == "docidentity not found"@),
        }),
{
    match get_docidentity_by_id(state, &docidentity_id) {
        Option::Some(docidentity) => Result::Ok(docidentity),
        Option::None => Result::Err(Error::NotFound { msg: "docidentity not found".to_owned() }),
    }
}

/// Remove a doctor identity by identifier.
pub fn delete_docidentity(state: &mut Clinic, docidentity_id: u64) -> (r: Result<(), Error>)
    requires
        old(state).wf(),
    ensures
        final(state).wf(),
        final(state).next_id == old(state).next_id,
        final(state).patients == old(state).patients,
        final(state).doctors == old(state).doctors,
        final(state).appointments == old(state).appointments,
        final(state).messages == old(state).messages,
        final(state).medical_records == old(state).medical_records,
        final(state).reports == old(state).reports,
        final(state).identities == old(state).identities,
        final(state).calendlies == old(state).calendlies,
        final(state).availabilities == old(state).availabilities,
        final(state).datas == old(state).datas,
        (if has_key(old(state).docidentities@, docidentity_id) {
            r is Ok && final(state).docidentities@ == old(state).docidentities@.remove(
                key_index(old(state).docidentities@, docidentity_id),
            )
        } else {
            final(state).docidentities@ == old(state).docidentities@ && (r matches Err(
                Error::NotFound { msg },
            ) && msg@ == "docidentity not found"@)
        }),
{
    match store_remove(&mut state.docidentities, docidentity_id) {
        Option::Some(_) => Result::Ok(()),
        Option::None => Result::Err(Error::NotFound { msg: "docidentity not found".to_owned() }),
    }
}

/// All doctor identities in ascending identifier order.
pub fn list_docidentities(state: &Clinic) -> (r: Vec<DocIdentity>)
    ensures
        r@ == state.docidentities@,
{
    let r = state.docidentities.clone();
    proof {
        assert forall|i: int| 0 <= i < r@.len() implies r@[i] == state.docidentities@[i] by {}
        assert(r@ =~= state.docidentities@);
    }
    r
}

/// Whether any stored doctor identity carries this principal string.
#[verifier::loop_isolation(false)]
pub fn does_docidentity_exist(state: &Clinic, principal: String) -> (r: bool)
    ensures
        r == docidentity_principal_taken(state.docidentities@, principal@),
{
    let n = state.docidentities.len();
    let mut i: usize = 0;
    while i < n
        invariant
            i <= n,
            n == state.docidentities@.len(),
            forall|m: int| 0 <= m < i ==> #[trigger] state.docidentities@[m].principal@
                != principal@,
        decreases n - i,
    {
        if state.docidentities[i].principal == principal {
            proof {
                assert(docidentity_principal_taken(state.docidentities@, principal@));
            }
            return true;
        }
        i = i + 1;
    }
    false
}

/// The stored patient identity under this identifier, if any.
pub fn get_identity_by_id(state: &Clinic, identity_id: &u64) -> (r: Option<Identity>)
    requires
        state.wf(),
    ensures
        (match r {
            Option::Some(p) => has_key(state.identities@, *identity_id) && p == record_at(
                state.identities@,
                *identity_id,
            ),
            Option::None => !has_key(state.identities@, *identity_id),
        }),
{
    match store_get(&state.identities, *identity_id) {
        Option::Some(p) => Option::Some(p.clone()),
        Option::None => Option::None,
    }
}

/// The stored doctor identity under this identifier, if any.
pub fn get_docidentity_by_id(state: &Clinic, docidentity_id: &u64) -> (r: Option<DocIdentity>)
    requires
        state.wf(),
    ensures
        (match r {
            Option::Some(p) => has_key(state.docidentities@, *docidentity_id) && p == record_at(
                state.docidentities@,
                *docidentity_id,
            ),
            Option::None => !has_key(state.docidentities@, *docidentity_id),
        }),
{
    match store_get(&state.docidentities, *docidentity_id) {
        Option::Some(p) => Option::Some(p.clone()),
        Option::None => Option::None,
    }
}

} // verus!
