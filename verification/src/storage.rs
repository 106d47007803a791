//! Owned keyed stores standing for the service's persistent maps.
//!
//! Each collection is a vector of records kept strictly sorted by key, so a
//! key occurs at most once and iteration visits records in ascending key
//! order.  [`Clinic`] bundles the stores with the identifier counter that
//! every record type draws from.

use vstd::prelude::*;

use crate::models::Appointment;
use crate::models::Availability;
use crate::models::Calendly;
use crate::models::Data;
use crate::models::DocIdentity;
use crate::models::Doctor;
use crate::models::Identity;
use crate::models::Keyed;
use crate::models::MedicalRecord;
use crate::models::Message;
use crate::models::Patient;
use crate::models::Report;

verus! {

/// Keys strictly increase along the store: each key occurs at most once.
pub open spec fn ids_sorted<T: Keyed>(s: Seq<T>) -> bool {
    forall|i: int, j: int|
        #![trigger s[i].key(), s[j].key()]
        0 <= i < j < s.len() ==> s[i].key() < s[j].key()
}

/// Every key in the store lies below `bound`.
pub open spec fn ids_below<T: Keyed>(s: Seq<T>, bound: u64) -> bool {
    forall|i: int| 0 <= i < s.len() ==> #[trigger] s[i].key() < bound
}

/// Some record in the store carries key `k`.
pub open spec fn has_key<T: Keyed>(s: Seq<T>, k: u64) -> bool {
    exists|i: int| 0 <= i < s.len() && #[trigger] s[i].key() == k
}

/// The index of the record with key `k` (meaningful only when `has_key`).
pub open spec fn key_index<T: Keyed>(s: Seq<T>, k: u64) -> int {
    choose|i: int| 0 <= i < s.len() && #[trigger] s[i].key() == k
}

/// The record stored under key `k` (meaningful only when `has_key`).
pub open spec fn record_at<T: Keyed>(s: Seq<T>, k: u64) -> T {
    s[key_index(s, k)]
}

/// In a sorted store a key determines its index.
pub proof fn lemma_sorted_key_unique<T: Keyed>(s: Seq<T>, i: int, j: int)
    requires
        ids_sorted(s),
        0 <= i < s.len(),
        0 <= j < s.len(),
        s[i].key() == s[j].key(),
    ensures
        i == j,
{
    if i < j {
        assert(s[i].key() < s[j].key());
    }
    if j < i {
        assert(s[j].key() < s[i].key());
    }
}

/// An index holding key `k` is the index `key_index` denotes.
pub proof fn lemma_key_index<T: Keyed>(s: Seq<T>, k: u64, i: int)
    requires
        ids_sorted(s),
        0 <= i < s.len(),
        s[i].key() == k,
    ensures
        has_key(s, k),
        key_index(s, k) == i,
        record_at(s, k) == s[i],
{
    assert(has_key(s, k));
    lemma_sorted_key_unique(s, key_index(s, k), i);
}

/// `post` is `pre` with `rec` inserted at its sorted position `i`.
pub open spec fn inserted_at<T: Keyed>(pre: Seq<T>, post: Seq<T>, rec: T, i: int) -> bool {
    &&& 0 <= i <= pre.len()
    &&& post == pre.insert(i, rec)
    &&& forall|m: int| 0 <= m < i ==> #[trigger] pre[m].key() < rec.key()
    &&& forall|m: int| i <= m < pre.len() ==> rec.key() < #[trigger] pre[m].key()
}

/// `post` is `pre` with `rec` stored under its own key: replaced in place
/// when the key was present, inserted at its sorted position otherwise.
pub open spec fn upserted<T: Keyed>(pre: Seq<T>, post: Seq<T>, rec: T) -> bool {
    if has_key(pre, rec.key()) {
        post == pre.update(key_index(pre, rec.key()), rec)
    } else {
        exists|i: int| #[trigger] inserted_at(pre, post, rec, i)
    }
}

/// The index of the record with key `k`, if present.
pub fn store_find_index<T: Keyed>(s: &Vec<T>, k: u64) -> (r: Option<usize>)
    requires
        ids_sorted(s@),
    ensures
        (match r {
            Option::Some(i) => has_key(s@, k) && key_index(s@, k) == i && i < s@.len(),
            Option::None => !has_key(s@, k),
        }),
{
    let n = s.len();
    let mut i: usize = 0;
    while i < n
        invariant
            i <= n,
            n == s@.len(),
            ids_sorted(s@),
            forall|m: int| 0 <= m < i ==> #[trigger] s@[m].key() != k,
        decreases n - i,
    {
        if s[i].get_key() == k {
            proof {
                lemma_key_index(s@, k, i as int);
            }
            return Option::Some(i);
        }
        i = i + 1;
    }
    proof {
        assert(!has_key(s@, k));
    }
    Option::None
}

/// A borrow of the record with key `k`, if present.
pub fn store_get<'a, T: Keyed>(s: &'a Vec<T>, k: u64) -> (r: Option<&'a T>)
    requires
        ids_sorted(s@),
    ensures
        (match r {
            Option::Some(t) => has_key(s@, k) && *t == record_at(s@, k),
            Option::None => !has_key(s@, k),
        }),
{
    match store_find_index(s, k) {
        Option::Some(i) => Option::Some(&s[i]),
        Option::None => Option::None,
    }
}

/// The first index whose key is at least `k` (the sorted insertion point).
fn store_lower_bound<T: Keyed>(s: &Vec<T>, k: u64) -> (i: usize)
    requires
        ids_sorted(s@),
    ensures
        i <= s@.len(),
        forall|m: int| 0 <= m < i ==> #[trigger] s@[m].key() < k,
        i < s@.len() ==> s@[i as int].key() >= k,
{
    let n = s.len();
    let mut i: usize = 0;
    while i < n
        invariant
            i <= n,
            n == s@.len(),
            ids_sorted(s@),
            forall|m: int| 0 <= m < i ==> #[trigger] s@[m].key() < k,
        decreases n - i,
    {
        if s[i].get_key() >= k {
            return i;
        }
        i = i + 1;
    }
    i
}

/// Store or replace `rec` under its own key, returning any replaced record:
/// the upsert of the underlying keyed map.
pub fn store_insert<T: Keyed>(s: &mut Vec<T>, rec: T) -> (prev: Option<T>)
    requires
        ids_sorted(old(s)@),
    ensures
        ids_sorted(final(s)@),
        has_key(final(s)@, rec.key()),
        record_at(final(s)@, rec.key()) == rec,
        forall|k2: u64| k2 != rec.key() ==> has_key(final(s)@, k2) == has_key(old(s)@, k2),
        forall|k2: u64|
            k2 != rec.key() && has_key(old(s)@, k2) ==> record_at(final(s)@, k2) == record_at(
                old(s)@,
                k2,
            ),
        has_key(old(s)@, rec.key()) ==> {
            &&& prev matches Some(p) && p == record_at(old(s)@, rec.key())
            &&& final(s)@ == old(s)@.update(key_index(old(s)@, rec.key()), rec)
        },
        !has_key(old(s)@, rec.key()) ==> {
            &&& prev is None
            &&& exists|i: int| #[trigger] inserted_at(old(s)@, final(s)@, rec, i)
        },
        upserted(old(s)@, final(s)@, rec),
        ids_below(old(s)@, rec.key()) ==> final(s)@ == old(s)@.push(rec),
{
    let ghost pre = s@;
    let k = rec.get_key();
    let i = store_lower_bound(s, k);
    if i < s.len() && s[i].get_key() == k {
        proof {
            lemma_key_index(pre, k, i as int);
        }
        let prev_rec = s.remove(i);
        s.insert(i, rec);
        proof {
            pre.remove_ensures(i as int);
            pre.remove(i as int).insert_ensures(i as int, rec);
            assert(s@ =~= pre.update(i as int, rec));
            lemma_store_update_facts(pre, s@, rec, i as int);
            assert(ids_below(pre, rec.key()) ==> false) by {
                if ids_below(pre, rec.key()) {
                    assert(pre[i as int].key() < rec.key());
                }
            }
        }
        Option::Some(prev_rec)
    } else {
        proof {
            assert(!has_key(pre, k)) by {
                if has_key(pre, k) {
                    let j = key_index(pre, k);
                    if j < i as int {
                        assert(pre[j].key() < k);
                    } else {
                        if (i as int) < pre.len() && (i as int) < j {
                            assert(pre[i as int].key() < pre[j].key());
                        }
                    }
                }
            }
        }
        s.insert(i, rec);
        proof {
            pre.insert_ensures(i as int, rec);
            assert(inserted_at(pre, s@, rec, i as int)) by {
                assert forall|m: int| i as int <= m < pre.len() implies rec.key() < #[trigger] pre[m].key() by {
                    assert(pre[i as int].key() >= k);
                    if (i as int) < m {
                        assert(pre[i as int].key() < pre[m].key());
                    }
                    assert(pre[m].key() != k);
                }
            };
            lemma_store_insert_facts(pre, s@, rec, i as int);
            if ids_below(pre, rec.key()) {
                assert(i as int == pre.len()) by {
                    if (i as int) < pre.len() {
                        assert(pre[i as int].key() < rec.key());
                    }
                }
                assert(s@ =~= pre.push(rec));
            }
        }
        Option::None
    }
}

/// Facts about replacing the record at index `i` by one with the same key.
proof fn lemma_store_update_facts<T: Keyed>(pre: Seq<T>, post: Seq<T>, rec: T, i: int)
    requires
        ids_sorted(pre),
        0 <= i < pre.len(),
        pre[i].key() == rec.key(),
        post == pre.update(i, rec),
    ensures
        ids_sorted(post),
        has_key(post, rec.key()),
        record_at(post, rec.key()) == rec,
        forall|k2: u64| k2 != rec.key() ==> has_key(post, k2) == has_key(pre, k2),
        forall|k2: u64|
            k2 != rec.key() && has_key(pre, k2) ==> record_at(post, k2) == record_at(pre, k2),
{
    assert(ids_sorted(post)) by {
        assert forall|a: int, b: int|
            #![trigger post[a].key(), post[b].key()]
            0 <= a < b < post.len() implies post[a].key() < post[b].key() by {
            assert(pre[a].key() < pre[b].key());
        }
    }
    lemma_key_index(post, rec.key(), i);
    assert forall|k2: u64| k2 != rec.key() implies has_key(post, k2) == has_key(pre, k2) by {
        if has_key(pre, k2) {
            let m = key_index(pre, k2);
            assert(post[m].key() == k2);
            assert(has_key(post, k2));
        }
        if has_key(post, k2) {
            let m = key_index(post, k2);
            assert(pre[m].key() == k2);
            assert(has_key(pre, k2));
        }
    }
    assert forall|k2: u64| k2 != rec.key() && has_key(pre, k2) implies record_at(post, k2)
        == record_at(pre, k2) by {
        let m = key_index(pre, k2);
        assert(pre[m].key() == k2);
        assert(post[m].key() == k2);
        lemma_key_index(post, k2, m);
    }
}

/// Facts about inserting a fresh record at its sorted position `i`.
proof fn lemma_store_insert_facts<T: Keyed>(pre: Seq<T>, post: Seq<T>, rec: T, i: int)
    requires
        ids_sorted(pre),
        inserted_at(pre, post, rec, i),
    ensures
        ids_sorted(post),
        has_key(post, rec.key()),
        record_at(post, rec.key()) == rec,
        forall|k2: u64| k2 != rec.key() ==> has_key(post, k2) == has_key(pre, k2),
        forall|k2: u64|
            k2 != rec.key() && has_key(pre, k2) ==> record_at(post, k2) == record_at(pre, k2),
{
    pre.insert_ensures(i, rec);
    assert(ids_sorted(post)) by {
        assert forall|a: int, b: int|
            #![trigger post[a].key(), post[b].key()]
            0 <= a < b < post.len() implies post[a].key() < post[b].key() by {
            if a < i && b < i {
                assert(pre[a].key() < pre[b].key());
            } else if a < i && b == i {
                assert(pre[a].key() < rec.key());
            } else if a < i && b > i {
                assert(post[b] == pre[b - 1]);
                if a < b - 1 {
                    assert(pre[a].key() < pre[b - 1].key());
                } else {
                    assert(pre[a].key() < rec.key());
                    assert(rec.key() < pre[b - 1].key());
                }
            } else if a == i && b > i {
                assert(rec.key() < pre[b - 1].key());
            } else {
                assert(pre[a - 1].key() < pre[b - 1].key());
            }
        }
    }
    lemma_key_index(post, rec.key(), i);
    assert forall|k2: u64| k2 != rec.key() implies has_key(post, k2) == has_key(pre, k2) by {
        if has_key(pre, k2) {
            let m = key_index(pre, k2);
            if m < i {
                assert(post[m].key() == k2);
            } else {
                assert(post[m + 1].key() == k2);
            }
            assert(has_key(post, k2));
        }
        if has_key(post, k2) {
            let m = key_index(post, k2);
            if m < i {
                assert(pre[m].key() == k2);
            } else {
                assert(m != i);
                assert(pre[m - 1].key() == k2);
            }
            assert(has_key(pre, k2));
        }
    }
    assert forall|k2: u64| k2 != rec.key() && has_key(pre, k2) implies record_at(post, k2)
        == record_at(pre, k2) by {
        let m = key_index(pre, k2);
        assert(pre[m].key() == k2);
        if m < i {
            assert(post[m].key() == k2);
            lemma_key_index(post, k2, m);
        } else {
            assert(post[m + 1].key() == k2);
            lemma_key_index(post, k2, m + 1);
        }
    }
}

/// Remove and return the record stored under `k`, if any.
pub fn store_remove<T: Keyed>(s: &mut Vec<T>, k: u64) -> (r: Option<T>)
    requires
        ids_sorted(old(s)@),
    ensures
        ids_sorted(final(s)@),
        !has_key(final(s)@, k),
        forall|k2: u64| k2 != k ==> has_key(final(s)@, k2) == has_key(old(s)@, k2),
        forall|k2: u64|
            k2 != k && has_key(old(s)@, k2) ==> record_at(final(s)@, k2) == record_at(old(s)@, k2),
        has_key(old(s)@, k) ==> {
            &&& r matches Some(t) && t == record_at(old(s)@, k)
            &&& final(s)@ == old(s)@.remove(key_index(old(s)@, k))
        },
        !has_key(old(s)@, k) ==> r is None && final(s)@ == old(s)@,
{
    let ghost pre = s@;
    match store_find_index(s, k) {
        Option::Some(i) => {
            let rec = s.remove(i);
            proof {
                pre.remove_ensures(i as int);
                lemma_store_remove_facts(pre, s@, k, i as int);
            }
            Option::Some(rec)
        },
        Option::None => Option::None,
    }
}

/// Facts about removing the record at index `i`.
proof fn lemma_store_remove_facts<T: Keyed>(pre: Seq<T>, post: Seq<T>, k: u64, i: int)
    requires
        ids_sorted(pre),
        0 <= i < pre.len(),
        pre[i].key() == k,
        post == pre.remove(i),
    ensures
        ids_sorted(post),
        !has_key(post, k),
        forall|k2: u64| k2 != k ==> has_key(post, k2) == has_key(pre, k2),
        forall|k2: u64|
            k2 != k && has_key(pre, k2) ==> record_at(post, k2) == record_at(pre, k2),
{
    pre.remove_ensures(i);
    assert(ids_sorted(post)) by {
        assert forall|a: int, b: int|
            #![trigger post[a].key(), post[b].key()]
            0 <= a < b < post.len() implies post[a].key() < post[b].key() by {
            if b < i {
                assert(pre[a].key() < pre[b].key());
            } else if a < i {
                assert(pre[a].key() < pre[b + 1].key());
            } else {
                assert(pre[a + 1].key() < pre[b + 1].key());
            }
        }
    }
    assert(!has_key(post, k)) by {
        if has_key(post, k) {
            let m = key_index(post, k);
            if m < i {
                lemma_sorted_key_unique(pre, m, i);
            } else {
                lemma_sorted_key_unique(pre, m + 1, i);
            }
        }
    }
    assert forall|k2: u64| k2 != k implies has_key(post, k2) == has_key(pre, k2) by {
        if has_key(pre, k2) {
            let m = key_index(pre, k2);
            assert(m != i);
            if m < i {
                assert(post[m].key() == k2);
            } else {
                assert(post[m - 1].key() == k2);
            }
            assert(has_key(post, k2));
        }
        if has_key(post, k2) {
            let m = key_index(post, k2);
            if m < i {
                assert(pre[m].key() == k2);
            } else {
                assert(pre[m + 1].key() == k2);
            }
            assert(has_key(pre, k2));
        }
    }
    assert forall|k2: u64| k2 != k && has_key(pre, k2) implies record_at(post, k2) == record_at(
        pre,
        k2,
    ) by {
        let m = key_index(pre, k2);
        assert(m != i);
        if m < i {
            assert(post[m].key() == k2);
            lemma_key_index(post, k2, m);
        } else {
            assert(post[m - 1].key() == k2);
            lemma_key_index(post, k2, m - 1);
        }
    }
}

/// A store is well formed below `bound`: sorted keys, all beneath `bound`.
pub open spec fn store_wf<T: Keyed>(s: Seq<T>, bound: u64) -> bool {
    ids_sorted(s) && ids_below(s, bound)
}

/// The whole service state: one keyed store per record type, plus the
/// monotonically increasing identifier counter they all draw from.
pub struct Clinic {
    pub next_id: u64,
    pub patients: Vec<Patient>,
    pub doctors: Vec<Doctor>,
    pub appointments: Vec<Appointment>,
    pub messages: Vec<Message>,
    pub medical_records: Vec<MedicalRecord>,
    pub reports: Vec<Report>,
    pub identities: Vec<Identity>,
    pub docidentities: Vec<DocIdentity>,
    pub calendlies: Vec<Calendly>,
    pub availabilities: Vec<Availability>,
    pub datas: Vec<Data>,
}

impl Clinic {
    /// Every store is sorted, and every key lies below `next_id` in the
    /// stores whose keys only ever come from the counter.  Medical records
    /// take caller-chosen keys outright, and the message and report stores
    /// can acquire one through their update paths, so those three are only
    /// sorted.
    pub open spec fn wf(self) -> bool {
        &&& store_wf(self.patients@, self.next_id)
        &&& store_wf(self.doctors@, self.next_id)
        &&& store_wf(self.appointments@, self.next_id)
        &&& ids_sorted(self.messages@)
        &&& ids_sorted(self.medical_records@)
        &&& ids_sorted(self.reports@)
        &&& store_wf(self.identities@, self.next_id)
        &&& store_wf(self.docidentities@, self.next_id)
        &&& store_wf(self.calendlies@, self.next_id)
        &&& store_wf(self.availabilities@, self.next_id)
        &&& store_wf(self.datas@, self.next_id)
    }

    /// A fresh service state: empty stores, counter at zero.
    pub fn new() -> (c: Clinic)
        ensures
            c.wf(),
            c.next_id == 0,
            c.patients@ == Seq::<Patient>::empty(),
            c.doctors@ == Seq::<Doctor>::empty(),
            c.appointments@ == Seq::<Appointment>::empty(),
            c.messages@ == Seq::<Message>::empty(),
            c.medical_records@ == Seq::<MedicalRecord>::empty(),
            c.reports@ == Seq::<Report>::empty(),
            c.identities@ == Seq::<Identity>::empty(),
            c.docidentities@ == Seq::<DocIdentity>::empty(),
            c.calendlies@ == Seq::<Calendly>::empty(),
            c.availabilities@ == Seq::<Availability>::empty(),
            c.datas@ == Seq::<Data>::empty(),
    {
        let c = Clinic {
            next_id: 0,
            patients: Vec::new(),
            doctors: Vec::new(),
            appointments: Vec::new(),
            messages: Vec::new(),
            medical_records: Vec::new(),
            reports: Vec::new(),
            identities: Vec::new(),
            docidentities: Vec::new(),
            calendlies: Vec::new(),
            availabilities: Vec::new(),
            datas: Vec::new(),
        };
        proof {
            assert(c.patients@ =~= Seq::<Patient>::empty());
            assert(c.doctors@ =~= Seq::<Doctor>::empty());
            assert(c.appointments@ =~= Seq::<Appointment>::empty());
            assert(c.messages@ =~= Seq::<Message>::empty());
            assert(c.medical_records@ =~= Seq::<MedicalRecord>::empty());
            assert(c.reports@ =~= Seq::<Report>::empty());
            assert(c.identities@ =~= Seq::<Identity>::empty());
            assert(c.docidentities@ =~= Seq::<DocIdentity>::empty());
            assert(c.calendlies@ =~= Seq::<Calendly>::empty());
            assert(c.availabilities@ =~= Seq::<Availability>::empty());
            assert(c.datas@ =~= Seq::<Data>::empty());
        }
        c
    }
}

} // verus!
