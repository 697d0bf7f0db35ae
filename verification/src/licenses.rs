//! The licence catalogue: the licences on offer, kept in the order of their
//! ids, and which principal uploaded each id.

use vstd::prelude::*;
use vstd::string::*;
use crate::assoc::AssocMap;
use crate::order::{bytes_lt, compare_bytes, lemma_bytes_lt_asymmetric, lemma_bytes_lt_transitive, KeyOrder};
use crate::principal::{Principal, anonymous_principal, principal_text};
use crate::text::{lowercase, text_eq, to_lowercase};

verus! {

/// A licence on offer. Prices are kept as the bits of their `f64` value.
#[derive(Debug)]
pub struct License {
    pub id: String,
    pub name: String,
    pub description: String,
    pub price_bits: u64,
    pub perpetual: bool,
    pub duration: u64,
    pub transferable: bool,
    pub transfer_commission_bits: u64,
}

/// The facts of a purchase that the buyer's signature covers.
#[derive(Debug)]
pub struct PurchaseInformations {
    pub license_id: String,
    pub price: String,
    pub date: String,
    pub to: String,
}

/// The licence that stands for "none": empty texts, zero numbers, no flags.
pub open spec fn is_default_license(l: License) -> bool {
    &&& l.id@ == Seq::<char>::empty()
    &&& l.name@ == Seq::<char>::empty()
    &&& l.description@ == Seq::<char>::empty()
    &&& l.price_bits == 0
    &&& !l.perpetual
    &&& l.duration == 0
    &&& !l.transferable
    &&& l.transfer_commission_bits == 0
}

impl Default for License {
    fn default() -> (r: License)
        ensures
            is_default_license(r),
    {
        License {
            id: String::new(),
            name: String::new(),
            description: String::new(),
            price_bits: 0,
            perpetual: false,
            duration: 0,
            transferable: false,
            transfer_commission_bits: 0,
        }
    }
}

impl License {
    /// A copy of the licence.
    pub fn duplicate(&self) -> (r: License)
        ensures
            r == *self,
    {
        License {
            id: self.id.clone(),
            name: self.name.clone(),
            description: self.description.clone(),
            price_bits: self.price_bits,
            perpetual: self.perpetual,
            duration: self.duration,
            transferable: self.transferable,
            transfer_commission_bits: self.transfer_commission_bits,
        }
    }
}

/// The bytes by which licences are ordered: the UTF-8 encoding of the id.
pub open spec fn id_key(l: License) -> Seq<u8> {
    vstd::utf8::encode_utf8(l.id@)
}

/// The licences come in strictly increasing order of their ids' bytes.
pub open spec fn sorted_by_id(s: Seq<License>) -> bool {
    forall|i: int, j: int| 0 <= i < j < s.len() ==> bytes_lt(#[trigger] id_key(s[i]), #[trigger] id_key(s[j]))
}

/// Some licence of `s` has the id `id`.
pub open spec fn has_id(s: Seq<License>, id: Seq<char>) -> bool {
    exists|i: int| 0 <= i < s.len() && #[trigger] s[i].id@ == id
}

/// `new` is `old` with `license` put in: in the place of the licence with its
/// id if there is one, otherwise inserted, the whole in order of the ids.
pub open spec fn stored_in_order(old: Seq<License>, new: Seq<License>, license: License) -> bool {
    &&& sorted_by_id(new)
    &&& has_id(old, license.id@) ==> exists|p: int|
        0 <= p < old.len() && old[p].id@ == license.id@ && new == old.update(p, license)
    &&& !has_id(old, license.id@) ==> exists|p: int| 0 <= p <= old.len() && new == old.insert(p, license)
}

/// The duration of the licence with the id `id`, or 0 where there is none.
pub open spec fn catalogue_duration(s: Seq<License>, id: Seq<char>) -> u64 {
    if has_id(s, id) {
        s[choose|i: int| 0 <= i < s.len() && #[trigger] s[i].id@ == id].duration
    } else {
        0
    }
}

/// In a catalogue kept in order, no two licences share an id.
pub proof fn lemma_sorted_ids_distinct(s: Seq<License>, i: int, j: int)
    requires
        sorted_by_id(s),
        0 <= i < s.len(),
        0 <= j < s.len(),
        s[i].id@ == s[j].id@,
    ensures
        i == j,
{
    if i < j {
        lemma_bytes_lt_asymmetric(id_key(s[i]), id_key(s[j]));
    } else if j < i {
        lemma_bytes_lt_asymmetric(id_key(s[j]), id_key(s[i]));
    }
}

/// Ids are equal exactly when their encodings are.
proof fn lemma_id_key_injective(a: License, b: License)
    ensures
        (a.id@ == b.id@) <==> (id_key(a) == id_key(b)),
{
    if id_key(a) == id_key(b) {
        vstd::utf8::encode_utf8_decode_utf8(a.id@);
        vstd::utf8::encode_utf8_decode_utf8(b.id@);
    }
}

/// Where a licence with the id `id` goes among the sorted `licenses`: the
/// licences before the position come before it; at the position stands either
/// a licence with the same id, or one that comes after it, or the end.
fn insert_position(licenses: &Vec<License>, id: &str) -> (r: (usize, KeyOrder))
    ensures
        r.0 <= licenses@.len(),
        forall|k: int|
            0 <= k < r.0 ==> bytes_lt(#[trigger] id_key(licenses@[k]), vstd::utf8::encode_utf8(id@)),
        r.1 == KeyOrder::Same ==> r.0 < licenses@.len() && id_key(licenses@[r.0 as int])
            == vstd::utf8::encode_utf8(id@),
        r.1 == KeyOrder::After ==> r.0 < licenses@.len() && bytes_lt(
            vstd::utf8::encode_utf8(id@),
            id_key(licenses@[r.0 as int]),
        ),
        r.1 == KeyOrder::Before ==> r.0 == licenses@.len(),
{
    let n = licenses.len();
    let mut p: usize = 0;
    while p < n
        invariant
            n == licenses@.len(),
            p <= n,
            forall|k: int|
                0 <= k < p ==> bytes_lt(#[trigger] id_key(licenses@[k]), vstd::utf8::encode_utf8(id@)),
        decreases n - p,
    {
        let o = compare_bytes(licenses[p].id.as_str().as_bytes(), id.as_bytes());
        match o {
            KeyOrder::Before => {},
            KeyOrder::Same => {
                return (p, KeyOrder::Same);
            },
            KeyOrder::After => {
                return (p, KeyOrder::After);
            },
        }
        p = p + 1;
    }
    (n, KeyOrder::Before)
}

/// The licences on offer, in increasing order of their ids.
#[derive(Debug)]
pub struct LicenseStore {
    licenses: Vec<License>,
}

impl View for LicenseStore {
    type V = Seq<License>;

    closed spec fn view(&self) -> Seq<License> {
        self.licenses@
    }
}

impl LicenseStore {
    #[verifier::type_invariant]
    spec fn sorted(&self) -> bool {
        sorted_by_id(self.licenses@)
    }

    /// The licences are in strictly increasing order of their ids.
    pub fn new() -> (r: LicenseStore)
        ensures
            r@ == Seq::<License>::empty(),
    {
        LicenseStore { licenses: Vec::new() }
    }

    /// The licences in order; no two share an id.
    pub fn licenses(&self) -> (r: &[License])
        ensures
            r@ == self@,
            sorted_by_id(self@),
    {
        proof {
            use_type_invariant(self);
        }
        self.licenses.as_slice()
    }

    /// The position of the licence with the id `id`.
    pub fn position(&self, id: &str) -> (r: Option<usize>)
        ensures
            r matches Some(i) ==> i < self@.len() && self@[i as int].id@ == id@,
            r is None <==> !has_id(self@, id@),
    {
        let mut i: usize = 0;
        while i < self.licenses.len()
            invariant
                i <= self.licenses@.len(),
                forall|k: int| 0 <= k < i ==> #[trigger] self.licenses@[k].id@ != id@,
            decreases self.licenses@.len() - i,
        {
            if text_eq(self.licenses[i].id.as_str(), id) {
                return Some(i);
            }
            i = i + 1;
        }
        None
    }

    /// Adds `license`, replacing the licence with the same id if there is one,
    /// and keeps the order.
    pub fn insert(&mut self, license: License)
        ensures
            stored_in_order(old(self)@, final(self)@, license),
    {
        proof {
            use_type_invariant(&*self);
        }
        let ghost old_s = self.licenses@;
        let ghost key = id_key(license);
        let mut licenses: Vec<License> = Vec::new();
        std::mem::swap(&mut licenses, &mut self.licenses);
        let (p, place) = insert_position(&licenses, license.id.as_str());
        let ghost lic = license;
        if place == KeyOrder::Same {
            proof {
                lemma_id_key_injective(old_s[p as int], lic);
                assert(old_s[p as int].id@ == lic.id@);
            }
            licenses.set(p, license);
            proof {
                let new_s = licenses@;
                assert(new_s == old_s.update(p as int, lic));
                assert forall|i: int, j: int| 0 <= i < j < new_s.len() implies bytes_lt(
                    #[trigger] id_key(new_s[i]),
                    #[trigger] id_key(new_s[j]),
                ) by {
                    assert(id_key(old_s[i]) == id_key(new_s[i]));
                    assert(id_key(old_s[j]) == id_key(new_s[j]));
                }
            }
        } else {
            proof {
                assert forall|k: int| 0 <= k < old_s.len() implies #[trigger] old_s[k].id@ != lic.id@ by {
                    if k < p {
                        lemma_bytes_lt_asymmetric(id_key(old_s[k]), key);
                    } else {
                        if k > p {
                            lemma_bytes_lt_transitive(key, id_key(old_s[p as int]), id_key(old_s[k]));
                        }
                        lemma_bytes_lt_asymmetric(key, id_key(old_s[k]));
                    }
                }
            }
            licenses.insert(p, license);
            proof {
                let new_s = licenses@;
                assert(new_s == old_s.insert(p as int, lic));
                assert forall|i: int, j: int| 0 <= i < j < new_s.len() implies bytes_lt(
                    #[trigger] id_key(new_s[i]),
                    #[trigger] id_key(new_s[j]),
                ) by {
                    if j < p {
                        assert(new_s[i] == old_s[i] && new_s[j] == old_s[j]);
                    } else if j == p {
                        assert(new_s[i] == old_s[i]);
                    } else if i < p {
                        assert(new_s[i] == old_s[i] && new_s[j] == old_s[j - 1]);
                    } else if i == p {
                        assert(new_s[j] == old_s[j - 1]);
                        if j - 1 > p {
                            lemma_bytes_lt_transitive(key, id_key(old_s[p as int]), id_key(old_s[j - 1]));
                        }
                    } else {
                        assert(new_s[i] == old_s[i - 1] && new_s[j] == old_s[j - 1]);
                    }
                }
            }
        }
        self.licenses = licenses;
    }
}

/// The catalogue as the contracts speak of it.
pub struct RegistryView {
    pub licenses: Seq<License>,
    pub owners: Map<Seq<char>, Seq<u8>>,
}

/// The catalogue: the licences on offer and the principal that uploaded each id.
#[derive(Debug)]
pub struct LicenseRegistry {
    licenses: LicenseStore,
    owners: AssocMap<String, Principal>,
}

impl View for LicenseRegistry {
    type V = RegistryView;

    closed spec fn view(&self) -> RegistryView {
        RegistryView { licenses: self.licenses@, owners: self.owners@.map_values(|p: Principal| p@) }
    }
}

/// The answer of `update` when the id belongs to another principal.
pub open spec fn taken_id_text() -> Seq<char> {
    "Non puoi caricare un ID gi?? preso da un altro account"@
}

/// `update` refuses to let `caller` upload the id `id`: another principal
/// uploaded it first.
pub open spec fn update_refused(v: RegistryView, caller: Seq<u8>, id: Seq<char>) -> bool {
    v.owners.contains_key(id) && v.owners[id] != caller
}

/// What `update` answers and does when `caller` uploads `license`: a refused
/// upload leaves the catalogue as it was; an accepted one records the caller
/// as the id's uploader and stores the licence in order.
pub open spec fn update_outcome(
    old: RegistryView,
    new: RegistryView,
    caller: Seq<u8>,
    license: License,
    answer: Seq<char>,
) -> bool {
    &&& update_refused(old, caller, license.id@) ==> answer == taken_id_text() && new == old
    &&& !update_refused(old, caller, license.id@) ==> {
        &&& answer == uploader_text(caller)
        &&& new.owners == old.owners.insert(license.id@, caller)
        &&& stored_in_order(old.licenses, new.licenses, license)
    }
}

/// What an accepted `update` answers: the caller's principal as text, after a
/// note for the anonymous principal.
pub open spec fn uploader_text(caller: Seq<u8>) -> Seq<char> {
    if caller == anonymous_principal() {
        "Eri anonimo: "@ + principal_text(caller)
    } else {
        principal_text(caller)
    }
}

/// The licence that `get` gives for `id`: the one with that id, if any.
pub open spec fn got_license(s: Seq<License>, id: Seq<char>, r: License) -> bool {
    &&& has_id(s, id) ==> exists|i: int| 0 <= i < s.len() && s[i].id@ == id && r == s[i]
    &&& !has_id(s, id) ==> is_default_license(r)
}

/// Some licence of `s` has an id whose lower-case form is `lower`.
pub open spec fn has_lower_id(s: Seq<License>, lower: Seq<char>) -> bool {
    exists|i: int| 0 <= i < s.len() && #[trigger] lowercase(s[i].id@) == lower
}

/// The licence that `get_single` gives for the lower-case text `lower`: the
/// first, in order, whose id's lower-case form is `lower`, if any.
pub open spec fn got_first_lower(s: Seq<License>, lower: Seq<char>, r: License) -> bool {
    &&& has_lower_id(s, lower) ==> exists|i: int|
        0 <= i < s.len() && lowercase(s[i].id@) == lower && r == s[i] && forall|j: int|
            0 <= j < i ==> #[trigger] lowercase(s[j].id@) != lower
    &&& !has_lower_id(s, lower) ==> is_default_license(r)
}

impl LicenseRegistry {
    /// An empty catalogue.
    pub fn new() -> (r: LicenseRegistry)
        ensures
            r@.licenses == Seq::<License>::empty(),
            r@.owners == Map::<Seq<char>, Seq<u8>>::empty(),
    {
        let r = LicenseRegistry { licenses: LicenseStore::new(), owners: AssocMap::new() };
        assert(r@.owners =~= Map::<Seq<char>, Seq<u8>>::empty());
        r
    }

    /// The licence with the id `name`, or the default licence.
    pub fn get(&self, name: String) -> (r: License)
        ensures
            got_license(self@.licenses, name@, r),
            r.duration == catalogue_duration(self@.licenses, name@),
    {
        let licenses = self.licenses.licenses();
        match self.licenses.position(name.as_str()) {
            Some(i) => {
                let r = licenses[i].duplicate();
                proof {
                    let s = self@.licenses;
                    let j = choose|j: int| 0 <= j < s.len() && #[trigger] s[j].id@ == name@;
                    lemma_sorted_ids_distinct(s, i as int, j);
                }
                r
            },
            None => License::default(),
        }
    }

    /// The first licence, in order of the ids, whose id matches `text` when
    /// both are put in lower case; the default licence if none does.
    pub fn get_single(&self, text: String) -> (r: License)
        ensures
            got_first_lower(self@.licenses, lowercase(text@), r),
    {
        let lower = to_lowercase(text.as_str());
        let licenses = self.licenses.licenses();
        let mut i: usize = 0;
        while i < licenses.len()
            invariant
                licenses@ == self@.licenses,
                i <= licenses@.len(),
                lower@ == lowercase(text@),
                forall|j: int| 0 <= j < i ==> #[trigger] lowercase(licenses@[j].id@) != lower@,
            decreases licenses@.len() - i,
        {
            let id = to_lowercase(licenses[i].id.as_str());
            if text_eq(id.as_str(), lower.as_str()) {
                let r = licenses[i].duplicate();
                proof {
                    let s = self@.licenses;
                    let k = i as int;
                    assert(lowercase(s[k].id@) == lower@);
                    assert(0 <= k < s.len() && lowercase(s[k].id@) == lower@ && r == s[k] && forall|j: int|
                        0 <= j < k ==> #[trigger] lowercase(s[j].id@) != lower@);
                }
                assert(has_lower_id(self@.licenses, lower@));
                assert(got_first_lower(self@.licenses, lower@, r));
                return r;
            }
            i = i + 1;
        }
        License::default()
    }

    /// Every licence on offer, in order of the ids.
    pub fn list_products(&self) -> (r: Vec<License>)
        ensures
            r@ == self@.licenses,
            sorted_by_id(r@),
    {
        let licenses = self.licenses.licenses();
        let mut r: Vec<License> = Vec::new();
        let mut i: usize = 0;
        while i < licenses.len()
            invariant
                i <= licenses@.len(),
                r@ == licenses@.take(i as int),
            decreases licenses@.len() - i,
        {
            r.push(licenses[i].duplicate());
            i = i + 1;
            assert(r@ =~= licenses@.take(i as int));
        }
        assert(licenses@.take(licenses@.len() as int) =~= licenses@);
        r
    }

    /// Uploads `license` on behalf of `caller`, unless another principal
    /// uploaded its id first.
    pub fn update(&mut self, caller: &Principal, license: License) -> (r: String)
        ensures
            update_outcome(old(self)@, final(self)@, caller@, license, r@),
    {
        let ghost old_view = self@;
        let license_id = license.id.clone();
        let caller_text = caller.to_text();
        match self.owners.get(&license_id) {
            Some(previous) => {
                let previous_text = previous.to_text();
                if !text_eq(previous_text.as_str(), caller_text.as_str()) {
                    return String::from_str("Non puoi caricare un ID gi?? preso da un altro account");
                }
                assert(previous@ == caller@);
            },
            None => {},
        }
        self.owners.insert(license_id, caller.duplicate());
        self.licenses.insert(license);
        assert(self@.owners =~= old_view.owners.insert(license_id@, caller@));
        let anonymous = Principal::anonymous();
        if caller.same_as(&anonymous) {
            let mut ret = String::from_str("Eri anonimo: ");
            ret.append(caller_text.as_str());
            ret
        } else {
            caller_text
        }
    }
}

/// The licence that `getSelf` answers: the default one.
pub fn get_self() -> (r: License)
    ensures
        is_default_license(r),
{
    License::default()
}

/// The textual form of the caller's principal.
pub fn get_my_principal(caller: &Principal) -> (r: String)
    ensures
        r@ == principal_text(caller@),
{
    caller.to_text()
}

} // verus!
