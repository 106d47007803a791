//! Availability store: a doctor's bookable time windows and the single
//! mutable flag saying whether each window is currently free.

use vstd::prelude::*;

use crate::error::Error;
use crate::models::Availability;
use crate::models::Keyed;
use crate::storage::has_key;
use crate::storage::key_index;
use crate::storage::record_at;
use crate::storage::store_get;
use crate::storage::store_insert;
use crate::storage::store_remove;
use crate::storage::Clinic;
use crate::utils::generate_id;

verus! {

/// The record belongs to this doctor and its window starts at `slot`.
pub open spec fn slot_matches(a: Availability, doctor_id: u64, slot: Seq<char>) -> bool {
    a.doctor_id == doctor_id && a.start_time@ == slot
}

/// A matching record that is currently free.
pub open spec fn free_slot_matches(a: Availability, doctor_id: u64, slot: Seq<char>) -> bool {
    slot_matches(a, doctor_id, slot) && a.is_available
}

/// Some record in the store matches `(doctor_id, slot)`.
pub open spec fn has_slot_match(s: Seq<Availability>, doctor_id: u64, slot: Seq<char>) -> bool {
    exists|i: int| 0 <= i < s.len() && slot_matches(#[trigger] s[i], doctor_id, slot)
}

/// Some record in the store matches `(doctor_id, slot)` and is free.
pub open spec fn has_free_slot(s: Seq<Availability>, doctor_id: u64, slot: Seq<char>) -> bool {
    exists|i: int| 0 <= i < s.len() && free_slot_matches(#[trigger] s[i], doctor_id, slot)
}

/// `j` is the first index matching `(doctor_id, slot)`.
pub open spec fn first_slot_match_at(
    s: Seq<Availability>,
    doctor_id: u64,
    slot: Seq<char>,
    j: int,
) -> bool {
    &&& 0 <= j < s.len()
    &&& slot_matches(s[j], doctor_id, slot)
    &&& forall|m: int| 0 <= m < j ==> !slot_matches(#[trigger] s[m], doctor_id, slot)
}

/// `j` is the first index matching `(doctor_id, slot)` that is free.
pub open spec fn first_free_slot_at(
    s: Seq<Availability>,
    doctor_id: u64,
    slot: Seq<char>,
    j: int,
) -> bool {
    &&& 0 <= j < s.len()
    &&& free_slot_matches(s[j], doctor_id, slot)
    &&& forall|m: int| 0 <= m < j ==> !free_slot_matches(#[trigger] s[m], doctor_id, slot)
}

/// The first index matching `(doctor_id, slot)` (meaningful when one exists).
pub open spec fn first_slot_match_idx(s: Seq<Availability>, doctor_id: u64, slot: Seq<char>) -> int {
    choose|j: int| first_slot_match_at(s, doctor_id, slot, j)
}

/// The record with its availability flag replaced.
pub open spec fn with_flag(a: Availability, flag: bool) -> Availability {
    Availability { is_available: flag, ..a }
}

/// At most one index is the first match.
pub proof fn lemma_first_slot_match_unique(
    s: Seq<Availability>,
    doctor_id: u64,
    slot: Seq<char>,
    j1: int,
    j2: int,
)
    requires
        first_slot_match_at(s, doctor_id, slot, j1),
        first_slot_match_at(s, doctor_id, slot, j2),
    ensures
        j1 == j2,
{
    if j1 < j2 {
        assert(!slot_matches(s[j1], doctor_id, slot));
    }
    if j2 < j1 {
        assert(!slot_matches(s[j2], doctor_id, slot));
    }
}

/// At most one index is the first free match.
pub proof fn lemma_first_free_slot_unique(
    s: Seq<Availability>,
    doctor_id: u64,
    slot: Seq<char>,
    j1: int,
    j2: int,
)
    requires
        first_free_slot_at(s, doctor_id, slot, j1),
        first_free_slot_at(s, doctor_id, slot, j2),
    ensures
        j1 == j2,
{
    if j1 < j2 {
        assert(!free_slot_matches(s[j1], doctor_id, slot));
    }
    if j2 < j1 {
        assert(!free_slot_matches(s[j2], doctor_id, slot));
    }
}

/// All records of one doctor, in store order.
pub open spec fn doctor_slots_of(s: Seq<Availability>, doctor_id: u64) -> Seq<Availability> {
    s.filter(|a: Availability| a.doctor_id == doctor_id)
}

/// All currently free records of one doctor, in store order.
pub open spec fn free_slots_of(s: Seq<Availability>, doctor_id: u64) -> Seq<Availability> {
    s.filter(|a: Availability| a.doctor_id == doctor_id && a.is_available)
}

/// Publish a doctor's open window.  The weekday must be 0 to 6, the two
/// time tokens non-empty, and the doctor registered.
#[verifier::loop_isolation(false)]
pub fn add_availability(
    state: &mut Clinic,
    doctor_id: u64,
    day_of_week: u8,
    start_time: String,
    end_time: String,
    is_available: bool,
) -> (r: Result<Availability, Error>)
    requires
        old(state).wf(),
        old(state).next_id < u64::MAX,
    ensures
        final(state).wf(),
        ({
            let pre = *old(state);
            if day_of_week > 6 {
                *final(state) == pre && (r matches Err(Error::InvalidInput { msg })
                    && msg@ == "Invalid day of the week"@)
            } else if start_time@.len() == 0 || end_time@.len() == 0 {
                *final(state) == pre && (r matches Err(Error::InvalidInput { msg })
                    && msg@ == "Start time or end time cannot be empty"@)
            } else if !has_key(pre.doctors@, doctor_id) {
                *final(state) == pre && (r matches Err(Error::NotFound { msg })
                    && msg@ == "doctor not found"@)
            } else {
                &&& (r matches Ok(a) && {
                    &&& a.id == pre.next_id
                    &&& a.doctor_id == doctor_id
                    &&& a.day_of_week == day_of_week
                    &&& a.start_time == start_time
                    &&& a.end_time == end_time
                    &&& a.is_available == is_available
                    &&& final(state).availabilities@ == pre.availabilities@.push(a)
                })
                &&& final(state).next_id == pre.next_id + 1
                &&& final(state).patients == pre.patients
                &&& final(state).doctors == pre.doctors
                &&& final(state).appointments == pre.appointments
                &&& final(state).messages == pre.messages
                &&& final(state).medical_records == pre.medical_records
                &&& final(state).reports == pre.reports
                &&& final(state).identities == pre.identities
                &&& final(state).docidentities == pre.docidentities
                &&& final(state).calendlies == pre.calendlies
                &&& final(state).datas == pre.datas
            }
        }),
{
    if day_of_week > 6 {
        return Result::Err(Error::InvalidInput { msg: "Invalid day of the week".to_owned() });
    }
    if start_time.as_str().is_empty() || end_time.as_str().is_empty() {
        return Result::Err(
            Error::InvalidInput { msg: "Start time or end time cannot be empty".to_owned() },
        );
    }
    if store_get(&state.doctors, doctor_id).is_none() {
        return Result::Err(Error::NotFound { msg: "doctor not found".to_owned() });
    }
    let id = generate_id(state);
    let availability = Availability { id, doctor_id, day_of_week, start_time, end_time, is_available };
    let stored = availability.clone();
    store_insert(&mut state.availabilities, stored);
    Result::Ok(availability)
}

/// Look an availability record up, reporting absence as `NotFound`.
pub fn get_availability(state: &Clinic, availability_id: u64) -> (r: Result<Availability, Error>)
    requires
        state.wf(),
    ensures
        (match r {
            Ok(a) => has_key(state.availabilities@, availability_id) && a == record_at(
                state.availabilities@,
                availability_id,
            ),
            Err(e) => !has_key(state.availabilities@, availability_id) && (e
                matches Error::NotFound { msg } && msg@ == "availability not found"@),
        }),
{
    match get_availability_by_id(state, &availability_id) {
        Option::Some(availability) => Result::Ok(availability),
        Option::None => Result::Err(Error::NotFound { msg: "availability not found".to_owned() }),
    }
}

/// Replace a stored availability record wholesale.  The new field values are
/// validated as at creation, but the doctor reference is deliberately not
/// re-checked against the directory, unlike at creation.
pub fn update_availability(
    state: &mut Clinic,
    availability_id: u64,
    doctor_id: u64,
    day_of_week: u8,
    start_time: String,
    end_time: String,
    is_available: bool,
) -> (r: Result<Availability, Error>)
    requires
        old(state).wf(),
    ensures
        final(state).wf(),
        final(state).next_id == old(state).next_id,
        final(state).patients == old(state).patients,
        final(state).doctors == old(state).doctors,
        final(state).appointments == old(state).appointments,
        final(state).messages == old(state).messages,
        final(state).medical_records == old(state).medical_records,
        final(state).reports == old(state).reports,
        final(state).identities == old(state).identities,
        final(state).docidentities == old(state).docidentities,
        final(state).calendlies == old(state).calendlies,
        final(state).datas == old(state).datas,
        ({
            let pre = *old(state);
            if day_of_week > 6 {
                final(state).availabilities@ == pre.availabilities@ && (r matches Err(
                    Error::InvalidInput { msg },
                ) && msg@ == "Invalid day of the week"@)
            } else if start_time@.len() == 0 || end_time@.len() == 0 {
                final(state).availabilities@ == pre.availabilities@ && (r matches Err(
                    Error::InvalidInput { msg },
                ) && msg@ == "Start time or end time cannot be empty"@)
            } else if !has_key(pre.availabilities@, availability_id) {
                final(state).availabilities@ == pre.availabilities@ && (r matches Err(
                    Error::NotFound { msg },
                ) && msg@ == "availability not found"@)
            } else {
                r matches Ok(a) && {
                    &&& a.id == availability_id
                    &&& a.doctor_id == doctor_id
                    &&& a.day_of_week == day_of_week
                    &&& a.start_time == start_time
                    &&& a.end_time == end_time
                    &&& a.is_available == is_available
                    &&& final(state).availabilities@ == pre.availabilities@.update(
                        key_index(pre.availabilities@, availability_id),
                        a,
                    )
                }
            }
        }),
{
    if day_of_week > 6 {
        return Result::Err(Error::InvalidInput { msg: "Invalid day of the week".to_owned() });
    }
    if start_time.as_str().is_empty() || end_time.as_str().is_empty() {
        return Result::Err(
            Error::InvalidInput { msg: "Start time or end time cannot be empty".to_owned() },
        );
    }
    if store_get(&state.availabilities, availability_id).is_none() {
        return Result::Err(Error::NotFound { msg: "availability not found".to_owned() });
    }
    let updated_availability = Availability {
        id: availability_id,
        doctor_id,
        day_of_week,
        start_time,
        end_time,
        is_available,
    };
    let stored = updated_availability.clone();
    store_insert(&mut state.availabilities, stored);
    Result::Ok(updated_availability)
}

/// Remove an availability record by identifier.
pub fn delete_availability(state: &mut Clinic, availability_id: u64) -> (r: Result<(), Error>)
    requires
        old(state).wf(),
    ensures
        final(state).wf(),
        final(state).next_id == old(state).next_id,
        final(state).patients == old(state).patients,
        final(state).doctors == old(state).doctors,
        final(state).appointments == old(state).appointments,
        final(state).messages == old(state).messages,
        final(state).medical_records == old(state).medical_records,
        final(state).reports == old(state).reports,
        final(state).identities == old(state).identities,
        final(state).docidentities == old(state).docidentities,
        final(state).calendlies == old(state).calendlies,
        final(state).datas == old(state).datas,
        (if has_key(old(state).availabilities@, availability_id) {
            r is Ok && final(state).availabilities@ == old(state).availabilities@.remove(
                key_index(old(state).availabilities@, availability_id),
            )
        } else {
            final(state).availabilities@ == old(state).availabilities@ && (r matches Err(
                Error::NotFound { msg },
            ) && msg@ == "availability not found"@)
        }),
{
    match store_remove(&mut state.availabilities, availability_id) {
        Option::Some(_) => Result::Ok(()),
        Option::None => Result::Err(Error::NotFound { msg: "availability not found".to_owned() }),
    }
}

/// All availability records in ascending identifier order.
pub fn list_availabilities(state: &Clinic) -> (r: Vec<Availability>)
    ensures
        r@ == state.availabilities@,
{
    let r = state.availabilities.clone();
    proof {
        assert forall|i: int| 0 <= i < r@.len() implies r@[i] == state.availabilities@[i] by {}
        assert(r@ =~= state.availabilities@);
    }
    r
}

/// A doctor's currently free windows, in store order.
#[verifier::loop_isolation(false)]
pub fn filter_available_slots_by_doctor_id(state: &Clinic, doctor_id: u64) -> (r: Vec<Availability>)
    ensures
        r@ == free_slots_of(state.availabilities@, doctor_id),
{
    let mut r: Vec<Availability> = Vec::new();
    let n = state.availabilities.len();
    let mut i: usize = 0;
    proof {
        assert(state.availabilities@.take(0) =~= Seq::<Availability>::empty());
        reveal(Seq::filter);
    }
    while i < n
        invariant
            i <= n,
            n == state.availabilities@.len(),
            r@ == free_slots_of(state.availabilities@.take(i as int), doctor_id),
        decreases n - i,
    {
        let a = &state.availabilities[i];
        if a.doctor_id == doctor_id && a.is_available {
            r.push(a.clone());
        }
        i = i + 1;
        proof {
            reveal(Seq::filter);
            let s = state.availabilities@;
            assert(s.take(i as int).drop_last() =~= s.take(i as int - 1));
            assert(s.take(i as int).last() == s[i as int - 1]);
        }
    }
    proof {
        assert(state.availabilities@.take(n as int) =~= state.availabilities@);
    }
    r
}

/// All of a doctor's windows, free or claimed, in store order.
#[verifier::loop_isolation(false)]
pub fn filter_availability_by_doctor_id(state: &Clinic, doctor_id: u64) -> (r: Vec<Availability>)
    ensures
        r@ == doctor_slots_of(state.availabilities@, doctor_id),
{
    let mut r: Vec<Availability> = Vec::new();
    let n = state.availabilities.len();
    let mut i: usize = 0;
    proof {
        assert(state.availabilities@.take(0) =~= Seq::<Availability>::empty());
        reveal(Seq::filter);
    }
    while i < n
        invariant
            i <= n,
            n == state.availabilities@.len(),
            r@ == doctor_slots_of(state.availabilities@.take(i as int), doctor_id),
        decreases n - i,
    {
        let a = &state.availabilities[i];
        if a.doctor_id == doctor_id {
            r.push(a.clone());
        }
        i = i + 1;
        proof {
            reveal(Seq::filter);
            let s = state.availabilities@;
            assert(s.take(i as int).drop_last() =~= s.take(i as int - 1));
            assert(s.take(i as int).last() == s[i as int - 1]);
        }
    }
    proof {
        assert(state.availabilities@.take(n as int) =~= state.availabilities@);
    }
    r
}

/// The stored availability record under this identifier, if any.
pub fn get_availability_by_id(state: &Clinic, availability_id: &u64) -> (r: Option<Availability>)
    requires
        state.wf(),
    ensures
        (match r {
            Option::Some(a) => has_key(state.availabilities@, *availability_id) && a == record_at(
                state.availabilities@,
                *availability_id,
            ),
            Option::None => !has_key(state.availabilities@, *availability_id),
        }),
{
    match store_get(&state.availabilities, *availability_id) {
        Option::Some(a) => Option::Some(a.clone()),
        Option::None => Option::None,
    }
}

/// Flip the availability flag of the first record matching `(doctor_id,
/// slot)`; silently do nothing when no record matches.  This is the
/// claim/release primitive the booking manager drives.
#[verifier::loop_isolation(false)]
pub fn update_availability_status(
    state: &mut Clinic,
    doctor_id: u64,
    slot: &String,
    is_available: bool,
)
    requires
        old(state).wf(),
    ensures
        final(state).wf(),
        final(state).next_id == old(state).next_id,
        final(state).patients == old(state).patients,
        final(state).doctors == old(state).doctors,
        final(state).appointments == old(state).appointments,
        final(state).messages == old(state).messages,
        final(state).medical_records == old(state).medical_records,
        final(state).reports == old(state).reports,
        final(state).identities == old(state).identities,
        final(state).docidentities == old(state).docidentities,
        final(state).calendlies == old(state).calendlies,
        final(state).datas == old(state).datas,
        !has_slot_match(old(state).availabilities@, doctor_id, slot@)
            ==> final(state).availabilities@ == old(state).availabilities@,
        has_slot_match(old(state).availabilities@, doctor_id, slot@) ==> ({
            let pre = old(state).availabilities@;
            let j = first_slot_match_idx(pre, doctor_id, slot@);
            &&& first_slot_match_at(pre, doctor_id, slot@, j)
            &&& final(state).availabilities@ == pre.update(j, with_flag(pre[j], is_available))
        }),
{
    let n = state.availabilities.len();
    let mut i: usize = 0;
    while i < n
        invariant
            i <= n,
            n == state.availabilities@.len(),
            *state == *old(state),
            forall|m: int| 0 <= m < i ==> !slot_matches(
                #[trigger] state.availabilities@[m],
                doctor_id,
                slot@,
            ),
        decreases n - i,
    {
        if state.availabilities[i].doctor_id == doctor_id && state.availabilities[i].start_time
            == *slot {
            let ghost pre = state.availabilities@;
            let a = &state.availabilities[i];
            let updated = Availability {
                id: a.id,
                doctor_id: a.doctor_id,
                day_of_week: a.day_of_week,
                start_time: a.start_time.clone(),
                end_time: a.end_time.clone(),
                is_available,
            };
            proof {
                assert(slot_matches(pre[i as int], doctor_id, slot@));
                assert(first_slot_match_at(pre, doctor_id, slot@, i as int));
                lemma_first_slot_match_unique(
                    pre,
                    doctor_id,
                    slot@,
                    first_slot_match_idx(pre, doctor_id, slot@),
                    i as int,
                );
                assert(updated == with_flag(pre[i as int], is_available));
                crate::storage::lemma_key_index(pre, updated.key(), i as int);
            }
            store_insert(&mut state.availabilities, updated);
            proof {
                assert forall|m: int|
                    0 <= m < state.availabilities@.len()
                    implies #[trigger] state.availabilities@[m].key() < state.next_id by {
                    assert(pre[m].key() < state.next_id);
                    if m != i as int {
                        assert(state.availabilities@[m] == pre[m]);
                    }
                }
            }
            return ;
        }
        i = i + 1;
    }
}

} // verus!
