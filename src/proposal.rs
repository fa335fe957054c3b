//! The approval workflow: withdrawal proposals that collect signatures until
//! a fixed quorum is reached, and the withdrawal descriptor built from a
//! proposal that is ready.
//!
//! The quorum here is a constant of this layer and independent of the
//! ledger's per-account threshold; the ledger checks its own threshold again
//! when the withdrawal reaches it.
use vstd::prelude::*;

verus! {

/// How many distinct signatures make a proposal ready to submit.
pub const APPROVAL_QUORUM: usize = 2;

/// How many random identifiers `submit` draws at most.
pub const ID_DRAW_ATTEMPTS: usize = 4;

/// Where a proposal stands. Only `Pending` and `ReadyToSubmit` are produced
/// by the operations of this module; the other two are reserved for a
/// status update after the transaction has been broadcast.
#[derive(PartialEq, Eq, Structural, Clone, Copy, Debug)]
pub enum ProposalStatus {
    Pending,
    ReadyToSubmit,
    Submitted,
    Completed,
}

/// A request to open a proposal.
pub struct CreateReq {
    pub proposer: String,
    pub destination: String,
    pub asset_code: String,
    pub amount: String,
    pub xdr_unsigned: Option<String>,
}

/// A signer's approval of a proposal.
pub struct SignReq {
    pub key: String,
    pub signature: String,
}

/// A withdrawal request under consideration. `destination` is the owner of
/// the custody account the funds leave; `amount` is kept as written.
pub struct Proposal {
    pub id: String,
    pub proposer: String,
    pub destination: String,
    pub asset_code: String,
    pub amount: String,
    pub xdr_unsigned: Option<String>,
    pub signatures: Vec<String>,
    pub status: ProposalStatus,
}

/// Why `execute` refused a proposal.
#[derive(PartialEq, Eq, Structural, Clone, Copy, Debug)]
pub enum ExecuteError {
    /// No proposal has the identifier.
    NotFound,
    /// The proposal has not reached `ReadyToSubmit`.
    NotReady,
}

/// The ledger withdrawal that an approved proposal stands for.
pub struct WithdrawInvocation {
    pub owner: String,
    pub amount: String,
    pub signatures_count: usize,
}

pub ghost struct ProposalView {
    pub id: Seq<char>,
    pub proposer: Seq<char>,
    pub destination: Seq<char>,
    pub asset_code: Seq<char>,
    pub amount: Seq<char>,
    pub xdr_unsigned: Option<Seq<char>>,
    pub signatures: Seq<Seq<char>>,
    pub status: ProposalStatus,
}

pub open spec fn opt_view(o: Option<String>) -> Option<Seq<char>> {
    match o {
        Some(s) => Some(s@),
        None => None,
    }
}

pub open spec fn strings_view(v: Seq<String>) -> Seq<Seq<char>> {
    v.map_values(|s: String| s@)
}

impl View for Proposal {
    type V = ProposalView;

    open spec fn view(&self) -> ProposalView {
        ProposalView {
            id: self.id@,
            proposer: self.proposer@,
            destination: self.destination@,
            asset_code: self.asset_code@,
            amount: self.amount@,
            xdr_unsigned: opt_view(self.xdr_unsigned),
            signatures: strings_view(self.signatures@),
            status: self.status,
        }
    }
}

pub open spec fn proposals_view(v: Seq<Proposal>) -> Seq<ProposalView> {
    v.map_values(|p: Proposal| p@)
}

/// The proposal that `submit` stores: pending, with no signature yet.
pub open spec fn pending_proposal(id: Seq<char>, req: CreateReq) -> ProposalView {
    ProposalView {
        id: id,
        proposer: req.proposer@,
        destination: req.destination@,
        asset_code: req.asset_code@,
        amount: req.amount@,
        xdr_unsigned: opt_view(req.xdr_unsigned),
        signatures: Seq::empty(),
        status: ProposalStatus::Pending,
    }
}

/// A proposal after an approval with `sig`: the signature is appended unless
/// an equal one is already there, and the quorum makes it ready to submit.
pub open spec fn with_signature(p: ProposalView, sig: Seq<char>) -> ProposalView {
    let sigs = if p.signatures.contains(sig) {
        p.signatures
    } else {
        p.signatures.push(sig)
    };
    ProposalView {
        signatures: sigs,
        status: if sigs.len() >= APPROVAL_QUORUM {
            ProposalStatus::ReadyToSubmit
        } else {
            p.status
        },
        ..p
    }
}

pub open spec fn has_id(s: Seq<ProposalView>, id: Seq<char>) -> bool {
    exists|i: int| 0 <= i < s.len() && #[trigger] s[i].id == id
}

/// The position of the proposal with identifier `id`.
pub open spec fn id_index(s: Seq<ProposalView>, id: Seq<char>) -> int {
    choose|i: int| 0 <= i < s.len() && #[trigger] s[i].id == id
}

pub open spec fn ids_unique(s: Seq<ProposalView>) -> bool {
    forall|i: int, j: int| 0 <= i < s.len() && 0 <= j < s.len() && i != j ==> s[i].id != s[j].id
}

/// The descriptor that `execute` builds from a ready proposal.
pub open spec fn invocation_of(p: ProposalView, inv: WithdrawInvocation) -> bool {
    &&& inv.owner@ == p.destination
    &&& inv.amount@ == p.amount
    &&& inv.signatures_count as nat == p.signatures.len()
}

/// Relies on uuid's `Uuid::new_v4` for a random identifier, written out by
/// its `Display` impl in the 36-character hyphenated form. Nothing else is
/// promised of the value.
#[verifier::external_body]
fn fresh_proposal_id() -> (r: String)
    ensures
        r@.len() == 36,
{
    uuid::Uuid::new_v4().to_string()
}

fn copy_strings(v: &Vec<String>) -> (r: Vec<String>)
    ensures
        r@ == v@,
{
    let mut r: Vec<String> = Vec::new();
    let mut i: usize = 0;
    while i < v.len()
        invariant
            0 <= i <= v@.len(),
            r@ == v@.subrange(0, i as int),
        decreases v@.len() - i,
    {
        r.push(v[i].clone());
        i += 1;
        assert(r@ =~= v@.subrange(0, i as int));
    }
    assert(v@.subrange(0, v@.len() as int) =~= v@);
    r
}

fn copy_opt(o: &Option<String>) -> (r: Option<String>)
    ensures
        r == *o,
{
    match o {
        Some(s) => Some(s.clone()),
        None => None,
    }
}

/// Whether `sigs` already holds a signature equal to `sig`.
fn holds_signature(sigs: &Vec<String>, sig: &String) -> (r: bool)
    ensures
        r == strings_view(sigs@).contains(sig@),
{
    let mut i: usize = 0;
    while i < sigs.len()
        invariant
            0 <= i <= sigs@.len(),
            forall|j: int| 0 <= j < i ==> #[trigger] sigs@[j]@ != sig@,
        decreases sigs@.len() - i,
    {
        if sigs[i] == *sig {
            assert(strings_view(sigs@)[i as int] == sig@);
            return true;
        }
        i += 1;
    }
    assert forall|j: int| 0 <= j < strings_view(sigs@).len() implies strings_view(sigs@)[j] != sig@ by {
        assert(strings_view(sigs@)[j] == sigs@[j]@);
    }
    false
}

impl Proposal {
    /// A field-by-field copy.
    pub fn copied(&self) -> (r: Proposal)
        ensures
            r@ == self@,
    {
        Proposal {
            id: self.id.clone(),
            proposer: self.proposer.clone(),
            destination: self.destination.clone(),
            asset_code: self.asset_code.clone(),
            amount: self.amount.clone(),
            xdr_unsigned: copy_opt(&self.xdr_unsigned),
            signatures: copy_strings(&self.signatures),
            status: self.status,
        }
    }
}

/// The registry of proposals, in the order they were submitted. Identifiers
/// are unique.
pub struct ProposalStore {
    proposals: Vec<Proposal>,
}

impl View for ProposalStore {
    type V = Seq<ProposalView>;

    closed spec fn view(&self) -> Seq<ProposalView> {
        proposals_view(self.proposals@)
    }
}

impl ProposalStore {
    pub open spec fn wf(&self) -> bool {
        ids_unique(self@)
    }

    /// An empty registry.
    pub fn new() -> (r: ProposalStore)
        ensures
            r.wf(),
            r@ == Seq::<ProposalView>::empty(),
    {
        let r = ProposalStore { proposals: Vec::new() };
        assert(r@ =~= Seq::<ProposalView>::empty());
        r
    }

    /// A copy of every proposal, in submission order.
    pub fn list(&self) -> (r: Vec<Proposal>)
        ensures
            proposals_view(r@) == self@,
    {
        let mut r: Vec<Proposal> = Vec::new();
        let mut i: usize = 0;
        while i < self.proposals.len()
            invariant
                0 <= i <= self.proposals@.len(),
                proposals_view(r@) == proposals_view(self.proposals@).subrange(0, i as int),
            decreases self.proposals@.len() - i,
        {
            let c = self.proposals[i].copied();
            let ghost prev = r@;
            r.push(c);
            assert(proposals_view(r@) =~= proposals_view(prev).push(c@));
            i += 1;
            assert(proposals_view(r@) =~= proposals_view(self.proposals@).subrange(0, i as int));
        }
        assert(proposals_view(self.proposals@).subrange(0, i as int) =~= self@);
        r
    }

    fn find_index(&self, id: &String) -> (r: Option<usize>)
        requires
            self.wf(),
        ensures
            match r {
                Some(i) => {
                    &&& i < self@.len()
                    &&& has_id(self@, id@)
                    &&& i as int == id_index(self@, id@)
                },
                None => !has_id(self@, id@),
            },
    {
        let mut i: usize = 0;
        while i < self.proposals.len()
            invariant
                self.wf(),
                0 <= i <= self.proposals@.len(),
                forall|j: int| 0 <= j < i ==> #[trigger] self@[j].id != id@,
            decreases self.proposals@.len() - i,
        {
            if self.proposals[i].id == *id {
                assert(self@[i as int].id == id@);
                return Some(i);
            }
            i += 1;
        }
        None
    }

    /// Stores a pending proposal under `id`, unless that identifier is taken.
    pub fn submit_with_id(&mut self, id: String, req: CreateReq) -> (r: bool)
        requires
            old(self).wf(),
        ensures
            final(self).wf(),
            r == !has_id(old(self)@, id@),
            r ==> final(self)@ == old(self)@.push(pending_proposal(id@, req)),
            !r ==> final(self)@ == old(self)@,
    {
        if self.find_index(&id).is_some() {
            return false;
        }
        let ghost before = self@;
        let ghost spec_req = req;
        let p = Proposal {
            id,
            proposer: req.proposer,
            destination: req.destination,
            asset_code: req.asset_code,
            amount: req.amount,
            xdr_unsigned: req.xdr_unsigned,
            signatures: Vec::new(),
            status: ProposalStatus::Pending,
        };
        assert(p@.signatures =~= Seq::<Seq<char>>::empty());
        self.proposals.push(p);
        assert(self@ =~= before.push(pending_proposal(p.id@, spec_req)));
        true
    }

    /// Stores a new pending proposal under a fresh random identifier and
    /// returns that identifier. A drawn identifier that is already taken is
    /// drawn again, up to `ID_DRAW_ATTEMPTS` draws in all; if the last one is
    /// taken too, nothing is stored and that identifier is returned as the
    /// error. On an empty registry the submission always succeeds.
    pub fn submit(&mut self, req: CreateReq) -> (r: Result<String, String>)
        requires
            old(self).wf(),
        ensures
            final(self).wf(),
            match r {
                Ok(id) => {
                    &&& !has_id(old(self)@, id@)
                    &&& final(self)@ == old(self)@.push(pending_proposal(id@, req))
                    &&& id@.len() == 36
                },
                Err(id) => has_id(old(self)@, id@) && final(self)@ == old(self)@,
            },
            old(self)@.len() == 0 ==> r is Ok,
    {
        let mut id = fresh_proposal_id();
        let mut attempts: usize = 1;
        while attempts < ID_DRAW_ATTEMPTS && self.find_index(&id).is_some()
            invariant
                self.wf(),
                self@ == old(self)@,
                1 <= attempts <= ID_DRAW_ATTEMPTS,
                id@.len() == 36,
            decreases ID_DRAW_ATTEMPTS - attempts,
        {
            id = fresh_proposal_id();
            attempts += 1;
        }
        let key = id.clone();
        if self.submit_with_id(id, req) {
            Ok(key)
        } else {
            Err(key)
        }
    }

    /// Adds the signature of `req` to the proposal `id`, unless an equal
    /// signature is already there, and marks the proposal ready once it holds
    /// the quorum. Returns the updated proposal, or `None` for an unknown id.
    /// Signatures are told apart by value only, not by signer.
    pub fn approve(&mut self, id: &String, req: &SignReq) -> (r: Option<Proposal>)
        requires
            old(self).wf(),
        ensures
            final(self).wf(),
            match r {
                Some(p) => {
                    let i = id_index(old(self)@, id@);
                    &&& has_id(old(self)@, id@)
                    &&& p@ == with_signature(old(self)@[i], req.signature@)
                    &&& final(self)@ == old(self)@.update(i, p@)
                },
                None => !has_id(old(self)@, id@) && final(self)@ == old(self)@,
            },
    {
        let i = match self.find_index(id) {
            Some(i) => i,
            None => return None,
        };
        let ghost before = self@;
        let mut p = self.proposals[i].copied();
        if !holds_signature(&p.signatures, &req.signature) {
            p.signatures.push(req.signature.clone());
            assert(strings_view(p.signatures@) =~= before[i as int].signatures.push(req.signature@));
        }
        if p.signatures.len() >= APPROVAL_QUORUM {
            p.status = ProposalStatus::ReadyToSubmit;
        }
        assert(p@ == with_signature(before[i as int], req.signature@));
        let stored = p.copied();
        self.proposals.set(i, stored);
        assert(self@ =~= before.update(i as int, p@));
        assert(ids_unique(self@)) by {
            assert forall|a: int, b: int| 0 <= a < self@.len() && 0 <= b < self@.len() && a != b implies self@[a].id != self@[b].id by {
                assert(self@[a].id == before[a].id && self@[b].id == before[b].id);
            }
        }
        Some(p)
    }

    /// The withdrawal that the proposal `id` stands for: its destination as
    /// owner, its amount as written and its current number of signatures.
    /// Refused for an unknown id and for a proposal that is not ready. The
    /// proposal itself is left as it is, so a repeated call builds the same
    /// withdrawal again.
    pub fn execute(&self, id: &String) -> (r: Result<WithdrawInvocation, ExecuteError>)
        requires
            self.wf(),
        ensures
            !has_id(self@, id@) ==> r == Err::<WithdrawInvocation, ExecuteError>(ExecuteError::NotFound),
            has_id(self@, id@) && self@[id_index(self@, id@)].status != ProposalStatus::ReadyToSubmit
                ==> r == Err::<WithdrawInvocation, ExecuteError>(ExecuteError::NotReady),
            has_id(self@, id@) && self@[id_index(self@, id@)].status == ProposalStatus::ReadyToSubmit
                ==> r is Ok && invocation_of(self@[id_index(self@, id@)], r->Ok_0),
    {
        let i = match self.find_index(id) {
            Some(i) => i,
            None => return Err(ExecuteError::NotFound),
        };
        let p = &self.proposals[i];
        assert(self@[i as int] == p@);
        if p.status != ProposalStatus::ReadyToSubmit {
            return Err(ExecuteError::NotReady);
        }
        Ok(WithdrawInvocation {
            owner: p.destination.clone(),
            amount: p.amount.clone(),
            signatures_count: p.signatures.len(),
        })
    }
}

/// After a submission under a fresh identifier, the listing holds the new
/// proposal exactly once, pending and without signatures.
pub proof fn lemma_submitted_listed_once(before: Seq<ProposalView>, id: Seq<char>, req: CreateReq)
    requires
        ids_unique(before),
        !has_id(before, id),
    ensures
        ({
            let after = before.push(pending_proposal(id, req));
            &&& ids_unique(after)
            &&& has_id(after, id)
            &&& forall|i: int, j: int|
                0 <= i < after.len() && 0 <= j < after.len() && after[i].id == id && after[j].id == id ==> i == j
            &&& after[id_index(after, id)].status == ProposalStatus::Pending
            &&& after[id_index(after, id)].signatures.len() == 0
        }),
{
    let after = before.push(pending_proposal(id, req));
    let n = before.len() as int;
    assert(after[n].id == id);
    assert forall|i: int| 0 <= i < n implies #[trigger] after[i] == before[i] by {}
    assert(ids_unique(after));
    let k = id_index(after, id);
    assert(k == n);
}

/// Approving twice with the same signature leaves the signatures as the
/// first approval left them.
pub proof fn lemma_same_signature_once(p: ProposalView, sig: Seq<char>)
    ensures
        with_signature(with_signature(p, sig), sig).signatures == with_signature(p, sig).signatures,
        with_signature(with_signature(p, sig), sig) == with_signature(p, sig),
{
    let q = with_signature(p, sig);
    if !p.signatures.contains(sig) {
        assert(p.signatures.push(sig)[p.signatures.len() as int] == sig);
    }
    assert(q.signatures.contains(sig));
}

/// On a pending proposal without signatures, one approval keeps it pending
/// and a second approval with a different signature makes it ready.
pub proof fn lemma_two_distinct_signatures_ready(p: ProposalView, s1: Seq<char>, s2: Seq<char>)
    requires
        p.status == ProposalStatus::Pending,
        p.signatures.len() == 0,
        s1 != s2,
    ensures
        with_signature(p, s1).status == ProposalStatus::Pending,
        with_signature(p, s1).signatures.len() == 1,
        with_signature(with_signature(p, s1), s2).status == ProposalStatus::ReadyToSubmit,
        with_signature(with_signature(p, s1), s2).signatures.len() == 2,
{
    let q = with_signature(p, s1);
    assert(q.signatures =~= seq![s1]);
    assert(!q.signatures.contains(s2)) by {
        if q.signatures.contains(s2) {
            let i = choose|i: int| 0 <= i < q.signatures.len() && q.signatures[i] == s2;
            assert(i == 0);
        }
    }
}

} // verus!
