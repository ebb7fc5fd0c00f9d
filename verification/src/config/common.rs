//! The `ChargeSystemToken` signed extension and the identifiers it carries,
//! with their SCALE encodings.

use crate::compact::{
    compact_decode, compact_encoding, lemma_compact_decode, lemma_compact_prefix_unique,
    push_compact_u128, push_compact_u32,
};
use sp_runtime::traits::ConstU32;
use vstd::prelude::*;
use vstd::std_specs::cmp::PartialEqSpec;

verus! {

pub type ParaId = u32;

pub type PalletId = u32;

pub type AssetId = u32;

/// A 32-byte account identifier. It encodes as its 32 bytes.
#[derive(Debug)]
pub struct AccountId32(pub [u8; 32]);

pub type VoteAccountId = AccountId32;

/// Declares sp-runtime's `ConstU32`, a type that stands for the number `T`;
/// Verus treats it as opaque and nothing is claimed of it.
#[verifier::external_type_specification]
#[verifier::external_body]
pub struct ExConstU32<const T: u32>(ConstU32<T>);

/// The bound on the length of asset names and symbols.
pub type StringLimit = ConstU32<128>;

impl PartialEq for AccountId32 {
    fn eq(&self, other: &Self) -> (r: bool)
        ensures
            r == (self.0@ == other.0@),
    {
        let mut i: usize = 0;
        while i < 32
            invariant
                i <= 32,
                self.0@.len() == 32,
                other.0@.len() == 32,
                forall|j: int| 0 <= j < i ==> self.0@[j] == other.0@[j],
            decreases 32 - i,
        {
            if self.0[i] != other.0[i] {
                return false;
            }
            i = i + 1;
        }
        assert(self.0 =~= other.0);
        true
    }
}

impl vstd::std_specs::cmp::PartialEqSpecImpl for AccountId32 {
    open spec fn obeys_eq_spec() -> bool {
        true
    }

    open spec fn eq_spec(&self, other: &AccountId32) -> bool {
        *self == *other
    }
}

impl Eq for AccountId32 {
}

impl AccountId32 {
    /// The SCALE encoding of the identifier: its bytes as they stand.
    pub open spec fn spec_encode(self) -> Seq<u8> {
        self.0@
    }
}

/// Appends the bytes of `account` to `dest`.
fn push_account_id(dest: &mut Vec<u8>, account: &AccountId32)
    ensures
        final(dest)@ == old(dest)@ + account.spec_encode(),
{
    let ghost start = dest@;
    let mut i: usize = 0;
    while i < 32
        invariant
            i <= 32,
            account.0@.len() == 32,
            dest@ == start + account.0@.take(i as int),
        decreases 32 - i,
    {
        dest.push(account.0[i]);
        i = i + 1;
        assert(account.0@.take(i as int) =~= account.0@.take(i - 1) + seq![account.0@[i - 1]]);
    }
    assert(account.0@.take(32) =~= account.0@);
}

/// Identifies a system token: the parachain, the pallet in it and the asset in
/// that pallet. Each of the three encodes as a compact integer.
#[derive(Debug, PartialEq, Eq, Structural)]
pub struct SystemTokenId {
    pub para_id: ParaId,
    pub pallet_id: PalletId,
    pub asset_id: AssetId,
}

impl SystemTokenId {
    /// The SCALE encoding: the compact encodings of `para_id`, `pallet_id` and
    /// `asset_id`, in that order.
    pub open spec fn spec_encode(self) -> Seq<u8> {
        compact_encoding(self.para_id as nat) + compact_encoding(self.pallet_id as nat)
            + compact_encoding(self.asset_id as nat)
    }

    pub fn new(para_id: ParaId, pallet_id: PalletId, asset_id: AssetId) -> (r: Self)
        ensures
            r.para_id == para_id,
            r.pallet_id == pallet_id,
            r.asset_id == asset_id,
    {
        Self { para_id, pallet_id, asset_id }
    }

    /// Appends the SCALE encoding of `self` to `dest`.
    pub fn encode_to(&self, dest: &mut Vec<u8>)
        ensures
            final(dest)@ == old(dest)@ + self.spec_encode(),
    {
        let ghost start = dest@;
        push_compact_u32(dest, self.para_id);
        push_compact_u32(dest, self.pallet_id);
        push_compact_u32(dest, self.asset_id);
        assert(dest@ =~= start + self.spec_encode());
    }

    /// The SCALE encoding of `self`.
    pub fn encode(&self) -> (r: Vec<u8>)
        ensures
            r@ == self.spec_encode(),
    {
        let mut r: Vec<u8> = Vec::new();
        self.encode_to(&mut r);
        assert(r@ =~= self.spec_encode());
        r
    }
}

/// A system token's encoding delimits itself: where the encodings of two
/// tokens begin the same byte string, the tokens are equal and so is what
/// follows them.
pub proof fn lemma_system_token_encoding_prefix_unique(
    a: SystemTokenId,
    b: SystemTokenId,
    s: Seq<u8>,
    t: Seq<u8>,
)
    requires
        a.spec_encode() + s == b.spec_encode() + t,
    ensures
        a == b,
        s == t,
{
    let (pa, qa, ra) = (
        compact_encoding(a.para_id as nat),
        compact_encoding(a.pallet_id as nat),
        compact_encoding(a.asset_id as nat),
    );
    let (pb, qb, rb) = (
        compact_encoding(b.para_id as nat),
        compact_encoding(b.pallet_id as nat),
        compact_encoding(b.asset_id as nat),
    );
    assert(a.spec_encode() + s =~= pa + (qa + (ra + s)));
    assert(b.spec_encode() + t =~= pb + (qb + (rb + t)));
    lemma_compact_prefix_unique(a.para_id as nat, b.para_id as nat, qa + (ra + s), qb + (rb + t));
    lemma_compact_prefix_unique(a.pallet_id as nat, b.pallet_id as nat, ra + s, rb + t);
    lemma_compact_prefix_unique(a.asset_id as nat, b.asset_id as nat, s, t);
}

/// Two system tokens with the same encoding are the same token.
pub proof fn lemma_system_token_encoding_injective(a: SystemTokenId, b: SystemTokenId)
    requires
        a.spec_encode() == b.spec_encode(),
    ensures
        a == b,
{
    lemma_system_token_encoding_prefix_unique(a, b, Seq::empty(), Seq::empty());
    assert(a.spec_encode() + Seq::<u8>::empty() =~= a.spec_encode());
    assert(b.spec_encode() + Seq::<u8>::empty() =~= b.spec_encode());
}

/// Reads a system token from the front of `s`: the three compact integers
/// there, in order, and the number of bytes they take.
pub open spec fn read_system_token(s: Seq<u8>) -> (nat, nat, nat, nat) {
    let (p, n1) = compact_decode(s);
    let (q, n2) = compact_decode(s.skip(n1 as int));
    let (a, n3) = compact_decode(s.skip((n1 + n2) as int));
    (p, q, a, n1 + n2 + n3)
}

/// Reading a system token back from the front of its encoding, whatever
/// follows it, gives its para id, pallet id and asset id, in that order, and
/// takes exactly the bytes of the encoding.
pub proof fn lemma_system_token_reads_back(t: SystemTokenId, rest: Seq<u8>)
    ensures
        read_system_token(t.spec_encode() + rest) == (
            t.para_id as nat,
            t.pallet_id as nat,
            t.asset_id as nat,
            t.spec_encode().len(),
        ),
{
    let cp = compact_encoding(t.para_id as nat);
    let cq = compact_encoding(t.pallet_id as nat);
    let ca = compact_encoding(t.asset_id as nat);
    let s = t.spec_encode() + rest;
    assert(s =~= cp + (cq + (ca + rest)));
    lemma_compact_decode(t.para_id as nat, cq + (ca + rest));
    assert(s.skip(cp.len() as int) =~= cq + (ca + rest));
    lemma_compact_decode(t.pallet_id as nat, ca + rest);
    assert(s.skip((cp.len() + cq.len()) as int) =~= ca + rest);
    lemma_compact_decode(t.asset_id as nat, rest);
}

/// The SCALE encoding of an optional system token: `0` for none, else `1`
/// followed by the token's encoding.
pub open spec fn system_token_option_encoding(o: Option<SystemTokenId>) -> Seq<u8> {
    match o {
        None => seq![0u8],
        Some(t) => seq![1u8] + t.spec_encode(),
    }
}

/// The SCALE encoding of an optional account: `0` for none, else `1` followed
/// by the account's 32 bytes.
pub open spec fn account_option_encoding(o: Option<AccountId32>) -> Seq<u8> {
    match o {
        None => seq![0u8],
        Some(a) => seq![1u8] + a.spec_encode(),
    }
}

/// The signed extension that pays a transaction's fee in a system token: a tip
/// for the block author, the token to pay the fee with, and the account to
/// vote for.
#[derive(Debug)]
pub struct ChargeSystemToken {
    tip: u128,
    system_token_id: Option<SystemTokenId>,
    vote_candidate: Option<VoteAccountId>,
}

impl ChargeSystemToken {
    /// The tip to be added for the block author.
    pub closed spec fn spec_tip(self) -> u128 {
        self.tip
    }

    /// The system token to pay the fee with, if any.
    pub closed spec fn spec_system_token_id(self) -> Option<SystemTokenId> {
        self.system_token_id
    }

    /// The account to vote for, if any.
    pub closed spec fn spec_vote_candidate(self) -> Option<VoteAccountId> {
        self.vote_candidate
    }

    /// The SCALE encoding: the compact encoding of the tip, then the optional
    /// system token, then the optional vote candidate.
    pub open spec fn spec_encode(self) -> Seq<u8> {
        compact_encoding(self.spec_tip() as nat) + system_token_option_encoding(
            self.spec_system_token_id(),
        ) + account_option_encoding(self.spec_vote_candidate())
    }

    pub fn new(
        tip: u128,
        system_token_id: Option<SystemTokenId>,
        vote_candidate: Option<VoteAccountId>,
    ) -> (r: Self)
        ensures
            r.spec_tip() == tip,
            r.spec_system_token_id() == system_token_id,
            r.spec_vote_candidate() == vote_candidate,
    {
        Self { tip, system_token_id, vote_candidate }
    }

    /// Appends the SCALE encoding of `self` to `dest`.
    pub fn encode_to(&self, dest: &mut Vec<u8>)
        ensures
            final(dest)@ == old(dest)@ + self.spec_encode(),
    {
        let ghost start = dest@;
        push_compact_u128(dest, self.tip);
        let ghost after_tip = dest@;
        match &self.system_token_id {
            None => dest.push(0u8),
            Some(t) => {
                dest.push(1u8);
                t.encode_to(dest);
            },
        }
        assert(dest@ =~= after_tip + system_token_option_encoding(self.system_token_id));
        let ghost after_token = dest@;
        match &self.vote_candidate {
            None => dest.push(0u8),
            Some(a) => {
                dest.push(1u8);
                push_account_id(dest, a);
            },
        }
        assert(dest@ =~= after_token + account_option_encoding(self.vote_candidate));
        assert(dest@ =~= start + self.spec_encode());
    }

    /// The SCALE encoding of `self`.
    pub fn encode(&self) -> (r: Vec<u8>)
        ensures
            r@ == self.spec_encode(),
    {
        let mut r: Vec<u8> = Vec::new();
        self.encode_to(&mut r);
        assert(r@ =~= self.spec_encode());
        r
    }
}

proof fn lemma_system_token_option_prefix_unique(
    a: Option<SystemTokenId>,
    b: Option<SystemTokenId>,
    s: Seq<u8>,
    t: Seq<u8>,
)
    requires
        system_token_option_encoding(a) + s == system_token_option_encoding(b) + t,
    ensures
        a == b,
        s == t,
{
    let x = system_token_option_encoding(a) + s;
    let y = system_token_option_encoding(b) + t;
    assert(x[0] == (if a is Some { 1u8 } else { 0u8 }));
    assert(y[0] == (if b is Some { 1u8 } else { 0u8 }));
    match (a, b) {
        (None, None) => {
            assert(x.drop_first() =~= s);
            assert(y.drop_first() =~= t);
        },
        (Some(ta), Some(tb)) => {
            assert(x.drop_first() =~= ta.spec_encode() + s);
            assert(y.drop_first() =~= tb.spec_encode() + t);
            lemma_system_token_encoding_prefix_unique(ta, tb, s, t);
        },
        _ => {},
    }
}

proof fn lemma_account_option_prefix_unique(
    a: Option<AccountId32>,
    b: Option<AccountId32>,
    s: Seq<u8>,
    t: Seq<u8>,
)
    requires
        account_option_encoding(a) + s == account_option_encoding(b) + t,
    ensures
        a == b,
        s == t,
{
    let x = account_option_encoding(a) + s;
    let y = account_option_encoding(b) + t;
    assert(x[0] == (if a is Some { 1u8 } else { 0u8 }));
    assert(y[0] == (if b is Some { 1u8 } else { 0u8 }));
    match (a, b) {
        (None, None) => {
            assert(x.drop_first() =~= s);
            assert(y.drop_first() =~= t);
        },
        (Some(ka), Some(kb)) => {
            assert(ka.0@.len() == 32);
            assert(kb.0@.len() == 32);
            assert(x.subrange(1, 33) =~= ka.0@);
            assert(y.subrange(1, 33) =~= kb.0@);
            assert(ka.0 =~= kb.0);
            assert(x.skip(33) =~= s);
            assert(y.skip(33) =~= t);
        },
        _ => {},
    }
}

/// The encoding of a `ChargeSystemToken` delimits itself: where the encodings
/// of two extensions begin the same byte string, the extensions are equal and
/// so is what follows them.
pub proof fn lemma_charge_encoding_prefix_unique(
    a: ChargeSystemToken,
    b: ChargeSystemToken,
    s: Seq<u8>,
    t: Seq<u8>,
)
    requires
        a.spec_encode() + s == b.spec_encode() + t,
    ensures
        a == b,
        s == t,
{
    let ta = system_token_option_encoding(a.system_token_id);
    let tb = system_token_option_encoding(b.system_token_id);
    let ka = account_option_encoding(a.vote_candidate);
    let kb = account_option_encoding(b.vote_candidate);
    assert(a.spec_encode() + s =~= compact_encoding(a.tip as nat) + (ta + (ka + s)));
    assert(b.spec_encode() + t =~= compact_encoding(b.tip as nat) + (tb + (kb + t)));
    lemma_compact_prefix_unique(a.tip as nat, b.tip as nat, ta + (ka + s), tb + (kb + t));
    lemma_system_token_option_prefix_unique(a.system_token_id, b.system_token_id, ka + s, kb + t);
    lemma_account_option_prefix_unique(a.vote_candidate, b.vote_candidate, s, t);
}

/// Two `ChargeSystemToken` values with the same encoding are the same value.
pub proof fn lemma_charge_encoding_injective(a: ChargeSystemToken, b: ChargeSystemToken)
    requires
        a.spec_encode() == b.spec_encode(),
    ensures
        a == b,
{
    lemma_charge_encoding_prefix_unique(a, b, Seq::empty(), Seq::empty());
    assert(a.spec_encode() + Seq::<u8>::empty() =~= a.spec_encode());
    assert(b.spec_encode() + Seq::<u8>::empty() =~= b.spec_encode());
}

/// Reading a `ChargeSystemToken` back from the front of its encoding,
/// whatever follows it: the first compact integer is the tip; the next byte is
/// `0` where there is no system token, else `1` followed by the token's para
/// id, pallet id and asset id; the next byte is `0` where there is no vote
/// candidate, else `1` followed by the candidate's 32 bytes as they are; and
/// then comes what followed.
pub proof fn lemma_charge_reads_back(c: ChargeSystemToken, rest: Seq<u8>)
    ensures
        ({
            let s = c.spec_encode() + rest;
            let (tip, n0) = compact_decode(s);
            let n: int = n0 as int;
            let m: int = match c.spec_system_token_id() {
                None => n + 1,
                Some(t) => n + 1 + t.spec_encode().len(),
            };
            &&& tip == c.spec_tip() as nat
            &&& c.spec_system_token_id() is None ==> s[n] == 0
            &&& c.spec_system_token_id() matches Some(t) ==> {
                &&& s[n] == 1
                &&& read_system_token(s.skip(n + 1)) == (
                    t.para_id as nat,
                    t.pallet_id as nat,
                    t.asset_id as nat,
                    t.spec_encode().len(),
                )
            }
            &&& c.spec_vote_candidate() is None ==> {
                &&& s[m] == 0
                &&& s.skip(m + 1) == rest
            }
            &&& c.spec_vote_candidate() matches Some(a) ==> {
                &&& s[m] == 1
                &&& s.subrange(m + 1, m + 33) == a.0@
                &&& s.skip(m + 33) == rest
            }
        }),
{
    let ct = compact_encoding(c.tip as nat);
    let te = system_token_option_encoding(c.system_token_id);
    let ke = account_option_encoding(c.vote_candidate);
    let s = c.spec_encode() + rest;
    assert(s =~= ct + (te + (ke + rest)));
    lemma_compact_decode(c.tip as nat, te + (ke + rest));
    let n: int = ct.len() as int;
    assert(s.skip(n) =~= te + (ke + rest));
    match c.system_token_id {
        None => {},
        Some(t) => {
            assert(s.skip(n + 1) =~= t.spec_encode() + (ke + rest));
            lemma_system_token_reads_back(t, ke + rest);
        },
    }
    let m: int = n + te.len();
    assert(s.skip(m) =~= ke + rest);
    match c.vote_candidate {
        None => {
            assert(s.skip(m + 1) =~= rest);
        },
        Some(a) => {
            assert(a.0@.len() == 32);
            assert(s.subrange(m + 1, m + 33) =~= a.0@);
            assert(s.skip(m + 33) =~= rest);
        },
    }
}

/// Two accounts are equal under `==` exactly when their 32 bytes agree
/// position by position.
pub proof fn lemma_account_eq_is_bytewise(a: AccountId32, b: AccountId32)
    ensures
        a.eq_spec(&b) <==> a.0@ == b.0@,
{
    if a.0@ == b.0@ {
        assert(a.0 =~= b.0);
    }
}

/// Two `ChargeSystemToken` values are equal under `==` exactly when their
/// tips, system tokens (all three ids) and vote candidates (all 32 bytes) are
/// equal.
pub proof fn lemma_charge_eq_is_fieldwise(a: ChargeSystemToken, b: ChargeSystemToken)
    ensures
        a.eq_spec(&b) <==> {
            &&& a.spec_tip() == b.spec_tip()
            &&& match (a.spec_system_token_id(), b.spec_system_token_id()) {
                (None, None) => true,
                (Some(x), Some(y)) => x.para_id == y.para_id && x.pallet_id == y.pallet_id
                    && x.asset_id == y.asset_id,
                _ => false,
            }
            &&& match (a.spec_vote_candidate(), b.spec_vote_candidate()) {
                (None, None) => true,
                (Some(x), Some(y)) => x.0@ == y.0@,
                _ => false,
            }
        },
{
    match (a.vote_candidate, b.vote_candidate) {
        (Some(x), Some(y)) => {
            if x.0@ == y.0@ {
                assert(x.0 =~= y.0);
            }
        },
        _ => {},
    }
}

impl PartialEq for ChargeSystemToken {
    fn eq(&self, other: &Self) -> (r: bool)
        ensures
            r == (self.spec_tip() == other.spec_tip() && self.spec_system_token_id()
                == other.spec_system_token_id() && self.spec_vote_candidate()
                == other.spec_vote_candidate()),
    {
        if self.tip != other.tip {
            return false;
        }
        let same_token = match (&self.system_token_id, &other.system_token_id) {
            (None, None) => true,
            (Some(a), Some(b)) => a.para_id == b.para_id && a.pallet_id == b.pallet_id
                && a.asset_id == b.asset_id,
            _ => false,
        };
        if !same_token {
            return false;
        }
        match (&self.vote_candidate, &other.vote_candidate) {
            (None, None) => true,
            (Some(a), Some(b)) => a.eq(b),
            _ => false,
        }
    }
}

impl vstd::std_specs::cmp::PartialEqSpecImpl for ChargeSystemToken {
    open spec fn obeys_eq_spec() -> bool {
        true
    }

    open spec fn eq_spec(&self, other: &ChargeSystemToken) -> bool {
        *self == *other
    }
}

impl Eq for ChargeSystemToken {
}

impl Default for ChargeSystemToken {
    fn default() -> (r: Self)
        ensures
            r.spec_tip() == 0,
            r.spec_system_token_id() == None::<SystemTokenId>,
            r.spec_vote_candidate() == None::<VoteAccountId>,
    {
        Self { tip: 0, system_token_id: None, vote_candidate: None }
    }
}

} // verus!
