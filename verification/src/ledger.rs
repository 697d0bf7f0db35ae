//! The DIP721 ledger of licence tokens: who owns each token, who may move it,
//! and the collection's own settings.
//!
//! The caller of each request is passed in as an argument.

use vstd::prelude::*;
use vstd::string::*;
use core::num::TryFromIntError;
use crate::assoc::{AssocMap, PrincipalSet};
use crate::metadata::{MetadataPart, MetadataVal};
use crate::date::{CivilDate, date_at_timestamp, date_later, date_triple, is_later, parse_dmy, parsed_dmy, triple_date, utc_date_at};
use crate::principal::{Principal, management_principal};

verus! {

/// The errors of the DIP721 interface.
#[derive(Debug, Clone, Copy, PartialEq, Eq, Structural)]
pub enum Error {
    Unauthorized,
    InvalidTokenId,
    ZeroAddress,
    Other,
}

impl From<TryFromIntError> for Error {
    fn from(_e: TryFromIntError) -> (r: Self) {
        Error::InvalidTokenId
    }
}

impl vstd::std_specs::convert::FromSpecImpl<TryFromIntError> for Error {
    open spec fn obeys_from_spec() -> bool {
        true
    }

    open spec fn from_spec(v: TryFromIntError) -> Error {
        Error::InvalidTokenId
    }
}

/// The error of a mint that the caller may not make.
#[derive(Debug, Clone, Copy, PartialEq, Eq, Structural)]
pub enum ConstrainedError {
    Unauthorized,
}

/// The optional DIP721 interfaces.
#[derive(Debug, Clone, Copy, PartialEq, Eq, Structural)]
pub enum InterfaceId {
    Approval,
    TransactionHistory,
    Mint,
    Burn,
    TransferNotification,
}

/// What a mint gives back: the transaction id and the new token's id.
#[derive(Debug, Clone, Copy, PartialEq, Eq, Structural)]
pub struct MintResult {
    pub token_id: u64,
    pub id: u128,
}

/// The collection's logo: its media type and its data.
#[derive(Debug, Clone, PartialEq, Eq)]
pub struct LogoResult {
    pub logo_type: String,
    pub data: String,
}

/// A token of the ledger.
#[derive(Debug)]
pub struct Nft {
    pub owner: Principal,
    pub approved: Option<Principal>,
    pub id: u64,
    pub metadata: Vec<MetadataPart>,
    pub name: String,
}

/// The metadata of one token of a user, with the token's id.
#[derive(Debug)]
pub struct ExtendedMetadataResult<'a> {
    pub metadata_desc: &'a [MetadataPart],
    pub token_id: u64,
}

/// A principal or nothing, by its view.
pub open spec fn option_view(p: Option<Principal>) -> Option<Seq<u8>> {
    match p {
        Some(q) => Some(q@),
        None => None,
    }
}

/// A token as the contracts speak of it.
pub struct NftView {
    pub owner: Seq<u8>,
    pub approved: Option<Seq<u8>>,
    pub id: u64,
    pub metadata: Seq<MetadataPart>,
    pub name: Seq<char>,
}

impl View for Nft {
    type V = NftView;

    open spec fn view(&self) -> NftView {
        NftView {
            owner: self.owner@,
            approved: option_view(self.approved),
            id: self.id,
            metadata: self.metadata@,
            name: self.name@,
        }
    }
}

/// The ledger as the contracts speak of it.
pub struct LedgerView {
    pub nfts: Seq<NftView>,
    pub custodians: Set<Seq<u8>>,
    pub operators: Map<Seq<u8>, Set<Seq<u8>>>,
    pub logo: Option<LogoResult>,
    pub name: Seq<char>,
    pub symbol: Seq<char>,
    pub txid: u128,
}

/// The state of the DIP721 ledger.
pub struct State {
    nfts: Vec<Nft>,
    custodians: PrincipalSet,
    operators: AssocMap<Principal, PrincipalSet>,
    logo: Option<LogoResult>,
    name: String,
    symbol: String,
    txid: u128,
}

impl View for State {
    type V = LedgerView;

    closed spec fn view(&self) -> LedgerView {
        LedgerView {
            nfts: self.nfts@.map_values(|n: Nft| n@),
            custodians: self.custodians@,
            operators: self.operators@.map_values(|s: PrincipalSet| s@),
            logo: self.logo,
            name: self.name@,
            symbol: self.symbol@,
            txid: self.txid,
        }
    }
}

/// Each token's id is its position in the ledger.
pub open spec fn ids_match_positions(nfts: Seq<NftView>) -> bool {
    forall|i: int| 0 <= i < nfts.len() ==> #[trigger] nfts[i].id == i
}

/// Whether `who` is among the operators that `owner` has approved.
pub open spec fn is_operator_of(s: LedgerView, owner: Seq<u8>, who: Seq<u8>) -> bool {
    s.operators.contains_key(owner) && s.operators[owner].contains(who)
}

/// Whether `caller` may move or approve the token `nft`, where `operator_owner`
/// is the principal whose operators are consulted: the owner, the approved
/// principal, an operator of `operator_owner`, or a custodian.
pub open spec fn may_act(s: LedgerView, caller: Seq<u8>, nft: NftView, operator_owner: Seq<u8>) -> bool {
    ||| nft.owner == caller
    ||| nft.approved == Some(caller)
    ||| is_operator_of(s, operator_owner, caller)
    ||| s.custodians.contains(caller)
}

/// The number of tokens owned by `user`.
pub open spec fn owned_count(nfts: Seq<NftView>, user: Seq<u8>) -> nat
    decreases nfts.len(),
{
    if nfts.len() == 0 {
        0
    } else {
        owned_count(nfts.drop_last(), user) + if nfts.last().owner == user {
            1nat
        } else {
            0nat
        }
    }
}

/// The ids of the tokens owned by `user`, in ledger order.
pub open spec fn owned_ids(nfts: Seq<NftView>, user: Seq<u8>) -> Seq<u64>
    decreases nfts.len(),
{
    if nfts.len() == 0 {
        Seq::empty()
    } else if nfts.last().owner == user {
        owned_ids(nfts.drop_last(), user).push(nfts.last().id)
    } else {
        owned_ids(nfts.drop_last(), user)
    }
}

/// `s` with the token `id` given to `to` and its approval cleared.
pub open spec fn token_transferred(s: LedgerView, id: int, to: Seq<u8>) -> LedgerView {
    LedgerView {
        nfts: s.nfts.update(id, NftView { owner: to, approved: None, ..s.nfts[id] }),
        txid: (s.txid + 1) as u128,
        ..s
    }
}

/// `s` with `user` approved for the token `id`.
pub open spec fn token_approved(s: LedgerView, id: int, user: Seq<u8>) -> LedgerView {
    LedgerView {
        nfts: s.nfts.update(id, NftView { approved: Some(user), ..s.nfts[id] }),
        txid: (s.txid + 1) as u128,
        ..s
    }
}

/// `s` with the token `id` given to the management canister.
pub open spec fn token_burned(s: LedgerView, id: int) -> LedgerView {
    LedgerView {
        nfts: s.nfts.update(id, NftView { owner: management_principal(), ..s.nfts[id] }),
        txid: (s.txid + 1) as u128,
        ..s
    }
}

/// Whether a transfer of `id` from `from`, asked by `caller`, goes through,
/// and the error that refuses it otherwise.
pub open spec fn transfer_check(s: LedgerView, caller: Seq<u8>, from: Seq<u8>, id: u64) -> Result<
    (),
    Error,
> {
    if id >= s.nfts.len() {
        Err(Error::InvalidTokenId)
    } else if !may_act(s, caller, s.nfts[id as int], from) {
        Err(Error::Unauthorized)
    } else if s.nfts[id as int].owner != from {
        Err(Error::Other)
    } else {
        Ok(())
    }
}

/// Whether `caller` may approve `user` for the token `id`, and the error that
/// refuses it otherwise.
pub open spec fn approve_check(s: LedgerView, caller: Seq<u8>, user: Seq<u8>, id: u64) -> Result<
    (),
    Error,
> {
    if id >= s.nfts.len() {
        Err(Error::InvalidTokenId)
    } else if !may_act(s, caller, s.nfts[id as int], user) {
        Err(Error::Unauthorized)
    } else {
        Ok(())
    }
}

/// The operators of `owner`: the empty set where `owner` has no entry.
pub open spec fn operators_of(s: LedgerView, owner: Seq<u8>) -> Set<Seq<u8>> {
    if s.operators.contains_key(owner) {
        s.operators[owner]
    } else {
        Set::empty()
    }
}

/// The operator map after `caller` sets `operator`'s approval for all of
/// `caller`'s tokens: an entry for `caller` is made in any case; the
/// management canister stands for "everyone" and can only be used to clear
/// the set; `caller` cannot approve itself.
pub open spec fn operators_after(
    s: LedgerView,
    caller: Seq<u8>,
    operator: Seq<u8>,
    is_approved: bool,
) -> Map<Seq<u8>, Set<Seq<u8>>> {
    if operator == caller {
        s.operators
    } else {
        let current = operators_of(s, caller);
        let updated = if operator == management_principal() {
            if is_approved {
                current
            } else {
                Set::empty()
            }
        } else if is_approved {
            current.insert(operator)
        } else {
            current.remove(operator)
        };
        s.operators.insert(caller, updated)
    }
}

/// The token that a mint appends.
pub open spec fn minted_token(id: u64, name: Seq<char>, to: Seq<u8>, metadata: Seq<MetadataPart>) -> NftView {
    NftView { owner: to, approved: None, id, metadata, name }
}

/// The answer of `name` for a token id: its name, or the messages for an
/// unusable id and for an id not in the ledger.
pub open spec fn token_name_text(s: LedgerView, token_id: u64) -> Seq<char> {
    if token_id > usize::MAX {
        "Errore input"@
    } else if token_id < s.nfts.len() {
        s.nfts[token_id as int].name
    } else {
        "ID non trovato"@
    }
}

/// The text that the expiry check reads for a token: the value stored under
/// "expire_date" in the token's first metadata part (its text, if it is a text
/// value, "01-01-1900" otherwise). There is none for a token of the
/// management canister, a token without metadata, or without that key.
pub open spec fn expiry_text(nft: NftView) -> Option<Seq<char>> {
    if nft.owner == management_principal() || nft.metadata.len() == 0 {
        None
    } else {
        let kv = nft.metadata[0].key_val_data@;
        if kv.contains_key("expire_date"@) {
            Some(
                match kv["expire_date"@] {
                    MetadataVal::TextContent(c) => c@,
                    _ => "01-01-1900"@,
                },
            )
        } else {
            None
        }
    }
}

/// The expiry text of the token, where there is one, is a date.
pub open spec fn expiry_parses(nft: NftView) -> bool {
    match expiry_text(nft) {
        Some(t) => parsed_dmy(t) is Some,
        None => true,
    }
}

/// The token has expired by `today`: its expiry date, whose year is not the
/// placeholder 1900, lies before `today`.
pub open spec fn nft_expired(nft: NftView, today: CivilDate) -> bool {
    match expiry_text(nft) {
        Some(t) => match parsed_dmy(t) {
            Some(d) => d.0 != 1900 && date_later(today, triple_date(d)),
            None => false,
        },
        None => false,
    }
}

/// The UTC date at the time `now_nanos` (nanoseconds since the Unix epoch).
pub open spec fn today_at(now_nanos: u64) -> CivilDate {
    triple_date(utc_date_at((now_nanos / 1_000_000_000) as i64))
}

/// The number of tokens that have expired by `today`.
pub open spec fn expired_count(nfts: Seq<NftView>, today: CivilDate) -> nat
    decreases nfts.len(),
{
    if nfts.len() == 0 {
        0
    } else {
        expired_count(nfts.drop_last(), today) + if nft_expired(nfts.last(), today) {
            1nat
        } else {
            0nat
        }
    }
}

/// The tokens after every token that has expired by `today` went to the
/// management canister.
pub open spec fn expired_burned(nfts: Seq<NftView>, today: CivilDate) -> Seq<NftView> {
    Seq::new(
        nfts.len(),
        |i: int|
            if nft_expired(nfts[i], today) {
                NftView { owner: management_principal(), ..nfts[i] }
            } else {
                nfts[i]
            },
    )
}

/// A prefix has no more expired tokens than the whole.
pub proof fn lemma_expired_count_prefix(nfts: Seq<NftView>, i: int, today: CivilDate)
    requires
        0 <= i <= nfts.len(),
    ensures
        expired_count(nfts.take(i), today) <= expired_count(nfts, today),
    decreases nfts.len(),
{
    if i < nfts.len() {
        assert(nfts.drop_last().take(i) =~= nfts.take(i));
        lemma_expired_count_prefix(nfts.drop_last(), i, today);
    } else {
        assert(nfts.take(i) =~= nfts);
    }
}

/// What a setting that only custodians may change answers and does: for a
/// custodian `caller`, `Ok` and the ledger becomes `updated`; for anyone else,
/// `Unauthorized` and the ledger stays as it was.
pub open spec fn custodian_setting(
    old: LedgerView,
    new: LedgerView,
    caller: Seq<u8>,
    r: Result<(), Error>,
    updated: LedgerView,
) -> bool {
    if old.custodians.contains(caller) {
        r == Ok::<(), Error>(()) && new == updated
    } else {
        r == Err::<(), Error>(Error::Unauthorized) && new == old
    }
}

/// The interfaces that the ledger declares.
pub open spec fn declared_interfaces() -> Seq<InterfaceId> {
    seq![InterfaceId::TransferNotification, InterfaceId::Burn, InterfaceId::Mint]
}

/// The interfaces that the ledger declares: transfer notification, burn and mint.
pub fn supported_interfaces() -> (r: Vec<InterfaceId>)
    ensures
        r@ == declared_interfaces(),
{
    let mut r: Vec<InterfaceId> = Vec::new();
    r.push(InterfaceId::TransferNotification);
    r.push(InterfaceId::Burn);
    r.push(InterfaceId::Mint);
    assert(r@ =~= declared_interfaces());
    r
}

impl State {
    /// The ledger is well formed: each token's id is its position, and the
    /// positions fit a token id.
    pub open spec fn wf(&self) -> bool {
        &&& ids_match_positions(self@.nfts)
        &&& self@.nfts.len() <= u64::MAX
    }

    /// An empty ledger, with no custodian, no name, no symbol and no logo.
    pub fn new() -> (r: State)
        ensures
            r.wf(),
            r@.nfts == Seq::<NftView>::empty(),
            r@.custodians == Set::<Seq<u8>>::empty(),
            r@.operators == Map::<Seq<u8>, Set<Seq<u8>>>::empty(),
            r@.logo is None,
            r@.name == Seq::<char>::empty(),
            r@.symbol == Seq::<char>::empty(),
            r@.txid == 0,
    {
        let r = State {
            nfts: Vec::new(),
            custodians: PrincipalSet::new(),
            operators: AssocMap::new(),
            logo: None,
            name: String::new(),
            symbol: String::new(),
            txid: 0,
        };
        assert(r@.nfts =~= Seq::<NftView>::empty());
        assert(r@.operators =~= Map::<Seq<u8>, Set<Seq<u8>>>::empty());
        r
    }

    /// Hands out the next transaction id.
    fn next_txid(&mut self) -> (r: u128)
        requires
            old(self).txid < u128::MAX,
        ensures
            r == old(self).txid,
            final(self).txid == old(self).txid + 1,
            final(self).nfts == old(self).nfts,
            final(self).custodians == old(self).custodians,
            final(self).operators == old(self).operators,
            final(self).logo == old(self).logo,
            final(self).name == old(self).name,
            final(self).symbol == old(self).symbol,
    {
        let txid = self.txid;
        self.txid = self.txid + 1;
        txid
    }

    /// The number of tokens that `user` owns.
    pub fn balance_of(&self, user: &Principal) -> (r: u64)
        requires
            self.wf(),
        ensures
            r == owned_count(self@.nfts, user@),
    {
        let mut count: u64 = 0;
        let mut i: usize = 0;
        while i < self.nfts.len()
            invariant
                self.wf(),
                i <= self.nfts@.len(),
                count == owned_count(self@.nfts.take(i as int), user@),
                count <= i,
            decreases self.nfts@.len() - i,
        {
            assert(self@.nfts.take(i + 1).drop_last() =~= self@.nfts.take(i as int));
            if self.nfts[i].owner.same_as(user) {
                count = count + 1;
            }
            i = i + 1;
        }
        assert(self@.nfts.take(self.nfts@.len() as int) =~= self@.nfts);
        count
    }

    proof fn lemma_nfts_view(&self)
        ensures
            self@.nfts.len() == self.nfts@.len(),
            forall|i: int| 0 <= i < self.nfts@.len() ==> #[trigger] self@.nfts[i] == self.nfts@[i]@,
    {
    }

    /// The position of the token `token_id`, where there is one.
    fn token_index(&self, token_id: u64) -> (r: Result<usize, Error>)
        ensures
            token_id < self@.nfts.len() ==> (r matches Ok(i) && i == token_id),
            token_id >= self@.nfts.len() ==> r == Err::<usize, Error>(Error::InvalidTokenId),
    {
        let n = self.nfts.len();
        assert(self@.nfts.len() == n);
        let i = match usize::try_from(token_id) {
            Ok(i) => i,
            Err(e) => {
                return Err(Error::from(e));
            },
        };
        if i < n {
            Ok(i)
        } else {
            Err(Error::InvalidTokenId)
        }
    }

    /// Whether `caller` may move or approve the token at `i`, consulting the
    /// operators of `operator_owner`.
    fn caller_may_act(&self, caller: &Principal, i: usize, operator_owner: &Principal) -> (r: bool)
        requires
            i < self@.nfts.len(),
        ensures
            r == may_act(self@, caller@, self@.nfts[i as int], operator_owner@),
    {
        proof {
            self.lemma_nfts_view();
        }
        let nft = &self.nfts[i];
        if nft.owner.same_as(caller) {
            return true;
        }
        match &nft.approved {
            Some(a) => {
                if a.same_as(caller) {
                    return true;
                }
            },
            None => {},
        }
        let is_operator = match self.operators.get(operator_owner) {
            Some(set) => set.contains(caller),
            None => false,
        };
        if is_operator {
            return true;
        }
        self.custodians.contains(caller)
    }

    /// Moves the token `token_id` from `from` to `to`, on behalf of `caller`,
    /// and clears its approval.
    pub fn transfer_from(&mut self, caller: &Principal, from: &Principal, to: Principal, token_id: u64) -> (r:
        Result<u128, Error>)
        requires
            old(self).wf(),
            transfer_check(old(self)@, caller@, from@, token_id) is Ok ==> old(self)@.txid < u128::MAX,
        ensures
            final(self).wf(),
            match transfer_check(old(self)@, caller@, from@, token_id) {
                Err(e) => r == Err::<u128, Error>(e) && final(self)@ == old(self)@,
                Ok(_) => r == Ok::<u128, Error>(old(self)@.txid) && final(self)@ == token_transferred(
                    old(self)@,
                    token_id as int,
                    to@,
                ),
            },
    {
        proof {
            self.lemma_nfts_view();
        }
        let i = match self.token_index(token_id) {
            Ok(i) => i,
            Err(e) => {
                return Err(e);
            },
        };
        if !self.caller_may_act(caller, i, from) {
            return Err(Error::Unauthorized);
        }
        if !self.nfts[i].owner.same_as(from) {
            return Err(Error::Other);
        }
        let ghost old_view = self@;
        self.nfts[i].approved = None;
        self.nfts[i].owner = to;
        let txid = self.next_txid();
        proof {
            self.lemma_nfts_view();
        }
        assert(self@.nfts =~= token_transferred(old_view, i as int, to@).nfts);
        Ok(txid)
    }

    /// Like `transfer_from`, but refuses to give the token to the management
    /// canister.
    pub fn safe_transfer_from(&mut self, caller: &Principal, from: &Principal, to: Principal, token_id: u64) -> (r:
        Result<u128, Error>)
        requires
            old(self).wf(),
            to@ != management_principal() && transfer_check(old(self)@, caller@, from@, token_id) is Ok
                ==> old(self)@.txid < u128::MAX,
        ensures
            final(self).wf(),
            to@ == management_principal() ==> r == Err::<u128, Error>(Error::ZeroAddress) && final(self)@
                == old(self)@,
            to@ != management_principal() ==> match transfer_check(old(self)@, caller@, from@, token_id) {
                Err(e) => r == Err::<u128, Error>(e) && final(self)@ == old(self)@,
                Ok(_) => r == Ok::<u128, Error>(old(self)@.txid) && final(self)@ == token_transferred(
                    old(self)@,
                    token_id as int,
                    to@,
                ),
            },
    {
        let mgmt = Principal::management_canister();
        if to.same_as(&mgmt) {
            Err(Error::ZeroAddress)
        } else {
            self.transfer_from(caller, from, to, token_id)
        }
    }

    /// Approves `user` for the token `token_id`, on behalf of `caller`.
    pub fn approve(&mut self, caller: &Principal, user: Principal, token_id: u64) -> (r: Result<u128, Error>)
        requires
            old(self).wf(),
            approve_check(old(self)@, caller@, user@, token_id) is Ok ==> old(self)@.txid < u128::MAX,
        ensures
            final(self).wf(),
            match approve_check(old(self)@, caller@, user@, token_id) {
                Err(e) => r == Err::<u128, Error>(e) && final(self)@ == old(self)@,
                Ok(_) => r == Ok::<u128, Error>(old(self)@.txid) && final(self)@ == token_approved(
                    old(self)@,
                    token_id as int,
                    user@,
                ),
            },
    {
        proof {
            self.lemma_nfts_view();
        }
        let i = match self.token_index(token_id) {
            Ok(i) => i,
            Err(e) => {
                return Err(e);
            },
        };
        if !self.caller_may_act(caller, i, &user) {
            return Err(Error::Unauthorized);
        }
        let ghost old_view = self@;
        let ghost user_view = user@;
        self.nfts[i].approved = Some(user);
        let txid = self.next_txid();
        proof {
            self.lemma_nfts_view();
        }
        assert(self@.nfts =~= token_approved(old_view, i as int, user_view).nfts);
        Ok(txid)
    }

    /// Sets whether `operator` may act for all of `caller`'s tokens.
    pub fn set_approval_for_all(&mut self, caller: &Principal, operator: Principal, is_approved: bool) -> (r:
        Result<u128, Error>)
        requires
            old(self).wf(),
            old(self)@.txid < u128::MAX,
        ensures
            final(self).wf(),
            r == Ok::<u128, Error>(old(self)@.txid),
            final(self)@ == (LedgerView {
                operators: operators_after(old(self)@, caller@, operator@, is_approved),
                txid: (old(self)@.txid + 1) as u128,
                ..old(self)@
            }),
    {
        let ghost old_view = self@;
        if !operator.same_as(caller) {
            let mut operators = match self.operators.remove(caller) {
                Some(set) => set,
                None => PrincipalSet::new(),
            };
            let mgmt = Principal::management_canister();
            if operator.same_as(&mgmt) {
                if !is_approved {
                    operators = PrincipalSet::new();
                }
            } else {
                if is_approved {
                    operators.insert(operator);
                } else {
                    operators.remove(&operator);
                }
            }
            self.operators.insert(caller.duplicate(), operators);
            assert(self@.operators =~= operators_after(old_view, caller@, operator@, is_approved));
        }
        let txid = self.next_txid();
        Ok(txid)
    }

    /// The principal approved for the token `token_id`, or `caller` where
    /// there is none.
    pub fn _get_approved(&self, caller: &Principal, token_id: u64) -> (r: Result<Principal, Error>)
        ensures
            token_id >= self@.nfts.len() ==> r == Err::<Principal, Error>(Error::InvalidTokenId),
            token_id < self@.nfts.len() ==> (r matches Ok(p) && p@ == match self@.nfts[token_id as int].approved {
                Some(a) => a,
                None => caller@,
            }),
    {
        proof {
            self.lemma_nfts_view();
        }
        let i = match self.token_index(token_id) {
            Ok(i) => i,
            Err(e) => {
                return Err(e);
            },
        };
        match &self.nfts[i].approved {
            Some(a) => Ok(a.duplicate()),
            None => Ok(caller.duplicate()),
        }
    }

    /// Whether `operator` may act for all of `caller`'s tokens.
    pub fn is_approved_for_all(&self, caller: &Principal, operator: &Principal) -> (r: bool)
        ensures
            r == is_operator_of(self@, caller@, operator@),
    {
        match self.operators.get(caller) {
            Some(set) => set.contains(operator),
            None => false,
        }
    }

    /// Appends a new token named `name`, owned by `to`, with the given metadata.
    pub fn mint(&mut self, name: String, to: Principal, metadata: Vec<MetadataPart>) -> (r: Result<
        MintResult,
        ConstrainedError,
    >)
        requires
            old(self).wf(),
            old(self)@.txid < u128::MAX,
            old(self)@.nfts.len() < u64::MAX,
        ensures
            final(self).wf(),
            r == Ok::<MintResult, ConstrainedError>(
                MintResult { id: old(self)@.txid, token_id: old(self)@.nfts.len() as u64 },
            ),
            final(self)@ == (LedgerView {
                nfts: old(self)@.nfts.push(
                    minted_token(old(self)@.nfts.len() as u64, name@, to@, metadata@),
                ),
                txid: (old(self)@.txid + 1) as u128,
                ..old(self)@
            }),
    {
        proof {
            self.lemma_nfts_view();
        }
        let ghost old_view = self@;
        let ghost token = minted_token(old_view.nfts.len() as u64, name@, to@, metadata@);
        let new_id = self.nfts.len() as u64;
        let nft = Nft { owner: to, approved: None, id: new_id, metadata, name };
        self.nfts.push(nft);
        let txid = self.next_txid();
        proof {
            self.lemma_nfts_view();
        }
        assert(self@.nfts =~= old_view.nfts.push(token));
        Ok(MintResult { id: txid, token_id: new_id })
    }

    /// Gives the token `token_id` to the management canister.
    pub fn burn(&mut self, token_id: u64) -> (r: Result<u128, Error>)
        requires
            old(self).wf(),
            token_id < old(self)@.nfts.len() ==> old(self)@.txid < u128::MAX,
        ensures
            final(self).wf(),
            token_id >= old(self)@.nfts.len() ==> r == Err::<u128, Error>(Error::InvalidTokenId) && final(self)@
                == old(self)@,
            token_id < old(self)@.nfts.len() ==> r == Ok::<u128, Error>(old(self)@.txid) && final(self)@
                == token_burned(old(self)@, token_id as int),
    {
        proof {
            self.lemma_nfts_view();
        }
        let i = match self.token_index(token_id) {
            Ok(i) => i,
            Err(e) => {
                return Err(e);
            },
        };
        let ghost old_view = self@;
        self.nfts[i].owner = Principal::management_canister();
        let txid = self.next_txid();
        proof {
            self.lemma_nfts_view();
        }
        assert(self@.nfts =~= token_burned(old_view, i as int).nfts);
        Ok(txid)
    }

    /// The last transaction id handed out plus one: the next one to be handed out.
    pub fn txid(&self) -> (r: u128)
        ensures
            r == self@.txid,
    {
        self.txid
    }

    /// The collection's symbol.
    pub fn symbol(&self) -> (r: String)
        ensures
            r@ == self@.symbol,
    {
        self.symbol.clone()
    }

    /// The number of tokens in the ledger, burned ones included.
    pub fn total_supply(&self) -> (r: u64)
        requires
            self.wf(),
        ensures
            r == self@.nfts.len(),
    {
        proof {
            self.lemma_nfts_view();
        }
        self.nfts.len() as u64
    }

    /// The collection's logo, or `default` where none was set.
    pub fn logo<'a>(&'a self, default: &'a LogoResult) -> (r: &'a LogoResult)
        ensures
            *r == match self@.logo {
                Some(l) => l,
                None => *default,
            },
    {
        match &self.logo {
            Some(l) => l,
            None => default,
        }
    }

    /// The metadata of the token `token_id`.
    pub fn get_metadata(&self, token_id: u64) -> (r: Result<&Vec<MetadataPart>, Error>)
        ensures
            token_id >= self@.nfts.len() ==> r == Err::<&Vec<MetadataPart>, Error>(Error::InvalidTokenId),
            token_id < self@.nfts.len() ==> (r matches Ok(m) && m@ == self@.nfts[token_id as int].metadata),
    {
        proof {
            self.lemma_nfts_view();
        }
        let i = match self.token_index(token_id) {
            Ok(i) => i,
            Err(e) => {
                return Err(e);
            },
        };
        Ok(&self.nfts[i].metadata)
    }

    /// The metadata of every token that `user` owns, with the tokens' ids, in
    /// ledger order.
    pub fn get_metadata_for_user(&self, user: &Principal) -> (r: Vec<ExtendedMetadataResult<'_>>)
        requires
            self.wf(),
        ensures
            r@.len() == owned_ids(self@.nfts, user@).len(),
            r@.len() == owned_count(self@.nfts, user@),
            forall|k: int|
                0 <= k < r@.len() ==> {
                    let id = owned_ids(self@.nfts, user@)[k];
                    &&& #[trigger] r@[k].token_id == id
                    &&& id < self@.nfts.len()
                    &&& self@.nfts[id as int].owner == user@
                    &&& r@[k].metadata_desc@ == self@.nfts[id as int].metadata
                },
            forall|a: int, b: int| 0 <= a < b < r@.len() ==> #[trigger] r@[a].token_id < #[trigger] r@[b].token_id,
            forall|j: int|
                0 <= j < self@.nfts.len() && #[trigger] self@.nfts[j].owner == user@ ==> exists|k: int|
                    0 <= k < r@.len() && r@[k].token_id == j,
    {
        proof {
            self.lemma_nfts_view();
        }
        let mut r: Vec<ExtendedMetadataResult<'_>> = Vec::new();
        let mut i: usize = 0;
        while i < self.nfts.len()
            invariant
                self.wf(),
                i <= self.nfts@.len(),
                self@.nfts.len() == self.nfts@.len(),
                forall|j: int| 0 <= j < self.nfts@.len() ==> #[trigger] self@.nfts[j] == self.nfts@[j]@,
                r@.len() == owned_ids(self@.nfts.take(i as int), user@).len(),
                r@.len() == owned_count(self@.nfts.take(i as int), user@),
                forall|k: int|
                    0 <= k < r@.len() ==> {
                        let id = owned_ids(self@.nfts.take(i as int), user@)[k];
                        &&& #[trigger] r@[k].token_id == id
                        &&& id < i
                        &&& r@[k].metadata_desc@ == self@.nfts[id as int].metadata
                    },
                forall|k: int| 0 <= k < r@.len() ==> self@.nfts[(#[trigger] r@[k]).token_id as int].owner == user@,
                forall|a: int, b: int| 0 <= a < b < r@.len() ==> #[trigger] r@[a].token_id < #[trigger] r@[b].token_id,
                forall|j: int|
                    0 <= j < i && #[trigger] self@.nfts[j].owner == user@ ==> exists|k: int|
                        0 <= k < r@.len() && r@[k].token_id == j,
            decreases self.nfts@.len() - i,
        {
            let ghost prefix = self@.nfts.take(i as int);
            let ghost next = self@.nfts.take(i + 1);
            let ghost prev_ids = owned_ids(prefix, user@);
            assert(next.drop_last() =~= prefix);
            assert(next.last() == self@.nfts[i as int]);
            assert(self@.nfts[i as int].id == i);
            let nft = &self.nfts[i];
            let ghost before = r@;
            if nft.owner.same_as(user) {
                r.push(ExtendedMetadataResult { metadata_desc: nft.metadata.as_slice(), token_id: nft.id });
                assert(owned_ids(next, user@) == prev_ids.push(i as u64));
                assert(r@[before.len() as int].token_id == i);
                assert(self@.nfts[i as int] == self.nfts@[i as int]@);
                assert(self@.nfts[i as int].owner == user@);
                assert forall|j: int|
                    0 <= j < i + 1 && #[trigger] self@.nfts[j].owner == user@ implies exists|k: int|
                        0 <= k < r@.len() && r@[k].token_id == j by {
                    if j < i {
                        let k = choose|k: int| 0 <= k < before.len() && before[k].token_id == j;
                        assert(r@[k] == before[k]);
                    } else {
                        assert(r@[before.len() as int].token_id == j);
                    }
                }
            } else {
                assert(owned_ids(next, user@) == prev_ids);
                assert forall|j: int|
                    0 <= j < i + 1 && #[trigger] self@.nfts[j].owner == user@ implies exists|k: int|
                        0 <= k < r@.len() && r@[k].token_id == j by {
                    if j == i {
                        assert(self.nfts@[i as int]@.owner == self.nfts@[i as int].owner@);
                    }
                }
            }
            i = i + 1;
        }
        assert(self@.nfts.take(self.nfts@.len() as int) =~= self@.nfts);
        r
    }

    /// The name of the token `token_id`; "Errore input" for an id that is no
    /// position, "ID non trovato" for one past the end of the ledger.
    pub fn name(&self, token_id: u64) -> (r: String)
        ensures
            r@ == token_name_text(self@, token_id),
    {
        proof {
            self.lemma_nfts_view();
        }
        let i = match usize::try_from(token_id) {
            Ok(i) => i,
            Err(_) => {
                return String::from_str("Errore input");
            },
        };
        if i < self.nfts.len() {
            self.nfts[i].name.clone()
        } else {
            String::from_str("ID non trovato")
        }
    }

    /// Whether `principal` is a custodian of the collection.
    pub fn is_custodian(&self, principal: &Principal) -> (r: bool)
        ensures
            r == self@.custodians.contains(principal@),
    {
        self.custodians.contains(principal)
    }

    /// Sets the collection's name, if `caller` is a custodian.
    pub fn set_name(&mut self, caller: &Principal, name: String) -> (r: Result<(), Error>)
        requires
            old(self).wf(),
        ensures
            final(self).wf(),
            custodian_setting(old(self)@, final(self)@, caller@, r, (LedgerView {
                name: name@,
                ..old(self)@
            })),
    {
        if self.custodians.contains(caller) {
            self.name = name;
            Ok(())
        } else {
            Err(Error::Unauthorized)
        }
    }

    /// Sets the collection's symbol, if `caller` is a custodian.
    pub fn set_symbol(&mut self, caller: &Principal, sym: String) -> (r: Result<(), Error>)
        requires
            old(self).wf(),
        ensures
            final(self).wf(),
            custodian_setting(old(self)@, final(self)@, caller@, r, (LedgerView {
                symbol: sym@,
                ..old(self)@
            })),
    {
        if self.custodians.contains(caller) {
            self.symbol = sym;
            Ok(())
        } else {
            Err(Error::Unauthorized)
        }
    }

    /// Sets or clears the collection's logo, if `caller` is a custodian.
    pub fn set_logo(&mut self, caller: &Principal, logo: Option<LogoResult>) -> (r: Result<(), Error>)
        requires
            old(self).wf(),
        ensures
            final(self).wf(),
            custodian_setting(old(self)@, final(self)@, caller@, r, (LedgerView {
                logo: logo,
                ..old(self)@
            })),
    {
        if self.custodians.contains(caller) {
            self.logo = logo;
            Ok(())
        } else {
            Err(Error::Unauthorized)
        }
    }

    /// Makes `user` a custodian or not, if `caller` is a custodian.
    pub fn set_custodian(&mut self, caller: &Principal, user: Principal, custodian: bool) -> (r: Result<
        (),
        Error,
    >)
        requires
            old(self).wf(),
        ensures
            final(self).wf(),
            custodian_setting(old(self)@, final(self)@, caller@, r, (LedgerView {
                custodians: if custodian {
                    old(self)@.custodians.insert(user@)
                } else {
                    old(self)@.custodians.remove(user@)
                },
                ..old(self)@
            })),
    {
        if self.custodians.contains(caller) {
            if custodian {
                self.custodians.insert(user);
            } else {
                self.custodians.remove(&user);
            }
            Ok(())
        } else {
            Err(Error::Unauthorized)
        }
    }

    /// Reads the expiry of the token at `i`: nothing where there is no expiry
    /// text, `Some(None)` where the text is no date, the date otherwise.
    fn read_expiry(&self, i: usize) -> (r: Option<Option<CivilDate>>)
        requires
            i < self@.nfts.len(),
        ensures
            r is None <==> expiry_text(self@.nfts[i as int]) is None,
            r matches Some(o) ==> (o is Some <==> parsed_dmy(expiry_text(self@.nfts[i as int])->0) is Some),
            r matches Some(Some(d)) ==> date_triple(d) == parsed_dmy(expiry_text(self@.nfts[i as int])->0)->0,
    {
        proof {
            self.lemma_nfts_view();
        }
        let nft = &self.nfts[i];
        let mgmt = Principal::management_canister();
        if nft.owner.same_as(&mgmt) {
            return None;
        }
        if nft.metadata.len() == 0 {
            return None;
        }
        let key = String::from_str("expire_date");
        match nft.metadata[0].key_val_data.get(&key) {
            None => None,
            Some(value) => {
                let text: &str = match value {
                    MetadataVal::TextContent(c) => c.as_str(),
                    _ => "01-01-1900",
                };
                Some(parse_dmy(text))
            },
        }
    }

    /// Checks whether the token `token_id` has expired at the time `now_nanos`
    /// (nanoseconds since the Unix epoch) and, if it has, burns it.
    pub fn is_date_expired_nft(&mut self, token_id: u64, now_nanos: u64) -> (r: bool)
        requires
            old(self).wf(),
            token_id < old(self)@.nfts.len() ==> expiry_parses(old(self)@.nfts[token_id as int]),
            token_id < old(self)@.nfts.len() && nft_expired(old(self)@.nfts[token_id as int], today_at(now_nanos))
                ==> old(self)@.txid < u128::MAX,
        ensures
            final(self).wf(),
            token_id >= old(self)@.nfts.len() ==> !r && final(self)@ == old(self)@,
            token_id < old(self)@.nfts.len() ==> r == nft_expired(old(self)@.nfts[token_id as int], today_at(now_nanos)),
            token_id < old(self)@.nfts.len() ==> final(self)@ == if r {
                token_burned(old(self)@, token_id as int)
            } else {
                old(self)@
            },
    {
        proof {
            self.lemma_nfts_view();
        }
        let i = match self.token_index(token_id) {
            Ok(i) => i,
            Err(_) => {
                return false;
            },
        };
        let expiry = match self.read_expiry(i) {
            None => {
                return false;
            },
            Some(e) => e,
        };
        let date = expiry.unwrap();
        if date.year != 1900 {
            let secs = (now_nanos / 1_000_000_000) as i64;
            let today = date_at_timestamp(secs);
            if is_later(today, date) {
                let _ = self.burn(token_id);
                true
            } else {
                false
            }
        } else {
            false
        }
    }

    /// Checks every token for expiry at the time `now_nanos` and burns those
    /// that have expired.
    pub fn check_nfts(&mut self, now_nanos: u64)
        requires
            old(self).wf(),
            forall|i: int| 0 <= i < old(self)@.nfts.len() ==> #[trigger] expiry_parses(old(self)@.nfts[i]),
            old(self)@.txid + expired_count(old(self)@.nfts, today_at(now_nanos)) <= u128::MAX,
        ensures
            final(self).wf(),
            final(self)@ == (LedgerView {
                nfts: expired_burned(old(self)@.nfts, today_at(now_nanos)),
                txid: (old(self)@.txid + expired_count(old(self)@.nfts, today_at(now_nanos))) as u128,
                ..old(self)@
            }),
    {
        let ghost start = self@;
        let ghost today = today_at(now_nanos);
        let ghost done = expired_burned(start.nfts, today);
        proof {
            self.lemma_nfts_view();
        }
        let n = self.nfts.len();
        let mut i: usize = 0;
        while i < n
            invariant
                self.wf(),
                n == start.nfts.len(),
                today == today_at(now_nanos),
                done == expired_burned(start.nfts, today),
                i <= n,
                self@.nfts.len() == n,
                forall|j: int| 0 <= j < start.nfts.len() ==> #[trigger] expiry_parses(start.nfts[j]),
                start.txid + expired_count(start.nfts, today) <= u128::MAX,
                forall|j: int| 0 <= j < i ==> #[trigger] self@.nfts[j] == done[j],
                forall|j: int| i <= j < n ==> #[trigger] self@.nfts[j] == start.nfts[j],
                self@.txid == start.txid + expired_count(start.nfts.take(i as int), today),
                self@.custodians == start.custodians,
                self@.operators == start.operators,
                self@.logo == start.logo,
                self@.name == start.name,
                self@.symbol == start.symbol,
            decreases n - i,
        {
            let ghost before = self@;
            proof {
                let next = start.nfts.take(i + 1);
                assert(next.drop_last() =~= start.nfts.take(i as int));
                assert(next.last() == start.nfts[i as int]);
                assert(expired_count(next, today) == expired_count(start.nfts.take(i as int), today) + if nft_expired(
                    start.nfts[i as int],
                    today,
                ) {
                    1nat
                } else {
                    0nat
                });
                lemma_expired_count_prefix(start.nfts, i + 1, today);
                assert(before.nfts[i as int] == start.nfts[i as int]);
                assert(expiry_parses(start.nfts[i as int]));
            }
            let id: u64 = i as u64;
            assert(id == i);
            let expired = self.is_date_expired_nft(id, now_nanos);
            proof {
                assert(expired == nft_expired(start.nfts[i as int], today));
                assert(self@.nfts[i as int] == done[i as int]);
                assert forall|j: int| 0 <= j < n && j != i implies #[trigger] self@.nfts[j] == before.nfts[j] by {}
            }
            i = i + 1;
        }
        assert(start.nfts.take(n as int) =~= start.nfts);
        assert(self@.nfts =~= done);
    }

    /// Like `is_date_expired_nft`, but answers `None`, leaving the ledger as
    /// it was, where that check cannot run: the token's expiry text is no date,
    /// or no transaction id is left for burning it.
    pub fn check_date_expired_nft(&mut self, token_id: u64, now_nanos: u64) -> (r: Option<bool>)
        requires
            old(self).wf(),
        ensures
            final(self).wf(),
            r is None ==> final(self)@ == old(self)@,
            r is None <==> token_id < old(self)@.nfts.len() && (!expiry_parses(old(self)@.nfts[token_id as int])
                || nft_expired(old(self)@.nfts[token_id as int], today_at(now_nanos)) && old(self)@.txid == u128::MAX),
            r matches Some(b) ==> token_id >= old(self)@.nfts.len() ==> !b && final(self)@ == old(self)@,
            r matches Some(b) ==> token_id < old(self)@.nfts.len() ==> b == nft_expired(
                old(self)@.nfts[token_id as int],
                today_at(now_nanos),
            ) && final(self)@ == if b {
                token_burned(old(self)@, token_id as int)
            } else {
                old(self)@
            },
    {
        match self.token_index(token_id) {
            Err(_) => {},
            Ok(i) => {
                match self.read_expiry(i) {
                    Some(None) => {
                        return None;
                    },
                    Some(Some(date)) => {
                        if date.year != 1900 {
                            let today = date_at_timestamp((now_nanos / 1_000_000_000) as i64);
                            if is_later(today, date) && self.txid == u128::MAX {
                                return None;
                            }
                        }
                    },
                    None => {},
                }
            },
        }
        Some(self.is_date_expired_nft(token_id, now_nanos))
    }

    /// Like `check_nfts`, but answers `false`, leaving the ledger as it was,
    /// where that check cannot run to its end: some token's expiry text is no
    /// date, or the transaction ids run out. Answers `true` once it has run.
    pub fn check_all_nfts(&mut self, now_nanos: u64) -> (r: bool)
        requires
            old(self).wf(),
        ensures
            final(self).wf(),
            r <==> (forall|i: int| 0 <= i < old(self)@.nfts.len() ==> #[trigger] expiry_parses(old(self)@.nfts[i]))
                && old(self)@.txid + expired_count(old(self)@.nfts, today_at(now_nanos)) <= u128::MAX,
            !r ==> final(self)@ == old(self)@,
            r ==> final(self)@ == (LedgerView {
                nfts: expired_burned(old(self)@.nfts, today_at(now_nanos)),
                txid: (old(self)@.txid + expired_count(old(self)@.nfts, today_at(now_nanos))) as u128,
                ..old(self)@
            }),
    {
        let ghost today = today_at(now_nanos);
        proof {
            self.lemma_nfts_view();
        }
        let n = self.nfts.len();
        let today_exec = date_at_timestamp((now_nanos / 1_000_000_000) as i64);
        let mut count: u128 = 0;
        let mut i: usize = 0;
        while i < n
            invariant
                self.wf(),
                self@ == old(self)@,
                n == self@.nfts.len(),
                i <= n,
                date_triple(today_exec) == utc_date_at((now_nanos / 1_000_000_000) as i64),
                today == today_at(now_nanos),
                forall|j: int| 0 <= j < i ==> #[trigger] expiry_parses(self@.nfts[j]),
                count == expired_count(self@.nfts.take(i as int), today),
                count <= i,
            decreases n - i,
        {
            proof {
                let next = self@.nfts.take(i + 1);
                assert(next.drop_last() =~= self@.nfts.take(i as int));
                assert(next.last() == self@.nfts[i as int]);
            }
            match self.read_expiry(i) {
                Some(None) => {
                    assert(!expiry_parses(old(self)@.nfts[i as int]));
                    return false;
                },
                Some(Some(date)) => {
                    if date.year != 1900 && is_later(today_exec, date) {
                        count = count + 1;
                    }
                },
                None => {},
            }
            i = i + 1;
        }
        assert(self@.nfts.take(n as int) =~= self@.nfts);
        if count > u128::MAX - self.txid {
            return false;
        }
        self.check_nfts(now_nanos);
        true
    }

    /// The owner of the token `token_id`.
    pub fn owner_of(&self, token_id: u64) -> (r: Result<Principal, Error>)
        ensures
            token_id < self@.nfts.len() ==> (r matches Ok(p) && p@ == self@.nfts[token_id as int].owner),
            token_id >= self@.nfts.len() ==> r == Err::<Principal, Error>(Error::InvalidTokenId),
    {
        let n = self.nfts.len();
        assert(self@.nfts.len() == n);
        let i = match usize::try_from(token_id) {
            Ok(i) => i,
            Err(e) => {
                return Err(Error::from(e));
            },
        };
        if i < n {
            Ok(self.nfts[i].owner.duplicate())
        } else {
            Err(Error::InvalidTokenId)
        }
    }
}

} // verus!
