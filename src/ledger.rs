//! The custody ledger: per-owner accounts with a balance, a signature
//! threshold and an activity flag, plus a counter of accounts ever created.
//!
//! Every operation is all-or-nothing: it either returns `Ok` and applies its
//! whole effect, or returns an error and leaves the ledger exactly as it was.
use vstd::prelude::*;

verus! {

/// One custody record, keyed by its owner.
#[derive(Debug)]
pub struct CustodyAccount {
    pub owner: String,
    pub balance: i128,
    pub required_signatures: u32,
    pub is_insured: bool,
    pub is_active: bool,
}

impl CustodyAccount {
    /// A field-by-field copy.
    pub fn copied(&self) -> (r: CustodyAccount)
        ensures
            r == *self,
    {
        CustodyAccount {
            owner: self.owner.clone(),
            balance: self.balance,
            required_signatures: self.required_signatures,
            is_insured: self.is_insured,
            is_active: self.is_active,
        }
    }
}

/// Why a ledger operation was rejected. A rejected operation changes nothing.
#[derive(PartialEq, Eq, Structural, Clone, Copy, Debug)]
pub enum LedgerError {
    /// The owner did not authorize the invocation.
    Unauthorized,
    /// A deposit or withdrawal amount was zero or negative.
    NonPositiveAmount,
    /// An account was requested with fewer than two required signatures.
    ThresholdTooLow,
    /// No account exists for the owner.
    AccountNotFound,
    /// The owner's account is not active.
    AccountInactive,
    /// Fewer signatures were supplied than the account requires.
    InsufficientSignatures,
    /// The balance is smaller than the requested withdrawal.
    InsufficientBalance,
    /// The balance or the account counter would leave its integer range.
    Overflow,
}

/// The identities whose authorization the host verified for one invocation.
pub struct AuthContext {
    pub authorized: Vec<String>,
}

impl AuthContext {
    pub open spec fn authorizes(&self, who: Seq<char>) -> bool {
        exists|i: int| 0 <= i < self.authorized@.len() && #[trigger] self.authorized@[i]@ == who
    }

    /// Whether `who` authorized this invocation.
    pub fn require_auth(&self, who: &String) -> (r: bool)
        ensures
            r == self.authorizes(who@),
    {
        let mut i: usize = 0;
        while i < self.authorized.len()
            invariant
                0 <= i <= self.authorized@.len(),
                forall|j: int| 0 <= j < i ==> #[trigger] self.authorized@[j]@ != who@,
            decreases self.authorized@.len() - i,
        {
            if self.authorized[i] == *who {
                return true;
            }
            i += 1;
        }
        false
    }
}

/// The abstract state of the ledger.
pub ghost struct LedgerView {
    pub accounts: Map<Seq<char>, CustodyAccount>,
    pub total: nat,
}

/// The accounts of a sequence of records, keyed by owner.
pub open spec fn book(s: Seq<CustodyAccount>) -> Map<Seq<char>, CustodyAccount>
    decreases s.len(),
{
    if s.len() == 0 {
        Map::empty()
    } else {
        book(s.drop_last()).insert(s.last().owner@, s.last())
    }
}

pub open spec fn owners_unique(s: Seq<CustodyAccount>) -> bool {
    forall|i: int, j: int|
        0 <= i < s.len() && 0 <= j < s.len() && i != j ==> s[i].owner@ != s[j].owner@
}

/// The record a successful creation stores.
pub open spec fn opened_account(owner: String, required: u32, insured: bool) -> CustodyAccount {
    CustodyAccount {
        owner: owner,
        balance: 0,
        required_signatures: required,
        is_insured: insured,
        is_active: true,
    }
}

/// The record returned for an owner that has no account.
pub open spec fn absent_account(owner: String) -> CustodyAccount {
    CustodyAccount {
        owner: owner,
        balance: 0,
        required_signatures: 0,
        is_insured: false,
        is_active: false,
    }
}

pub open spec fn with_balance(a: CustodyAccount, balance: int) -> CustodyAccount {
    CustodyAccount { balance: balance as i128, ..a }
}

/// The result of `create_custody_account`, checks taken in order.
pub open spec fn create_outcome(v: LedgerView, authorized: bool, owner: Seq<char>, required: u32) -> Result<bool, LedgerError> {
    if !authorized {
        Err(LedgerError::Unauthorized)
    } else if v.accounts.contains_key(owner) {
        Ok(false)
    } else if required < 2 {
        Err(LedgerError::ThresholdTooLow)
    } else if v.total >= u64::MAX {
        Err(LedgerError::Overflow)
    } else {
        Ok(true)
    }
}

/// The result of `deposit_assets`, checks taken in order.
pub open spec fn deposit_outcome(v: LedgerView, authorized: bool, owner: Seq<char>, amount: i128) -> Result<bool, LedgerError> {
    if !authorized {
        Err(LedgerError::Unauthorized)
    } else if amount <= 0 {
        Err(LedgerError::NonPositiveAmount)
    } else if !v.accounts.contains_key(owner) {
        Err(LedgerError::AccountNotFound)
    } else if !v.accounts[owner].is_active {
        Err(LedgerError::AccountInactive)
    } else if v.accounts[owner].balance + amount > i128::MAX {
        Err(LedgerError::Overflow)
    } else {
        Ok(true)
    }
}

/// The result of `withdraw_assets`, checks taken in order.
pub open spec fn withdraw_outcome(v: LedgerView, authorized: bool, owner: Seq<char>, amount: i128, signatures_count: u32) -> Result<bool, LedgerError> {
    if !authorized {
        Err(LedgerError::Unauthorized)
    } else if amount <= 0 {
        Err(LedgerError::NonPositiveAmount)
    } else if !v.accounts.contains_key(owner) {
        Err(LedgerError::AccountNotFound)
    } else if !v.accounts[owner].is_active {
        Err(LedgerError::AccountInactive)
    } else if signatures_count < v.accounts[owner].required_signatures {
        Err(LedgerError::InsufficientSignatures)
    } else if v.accounts[owner].balance < amount {
        Err(LedgerError::InsufficientBalance)
    } else {
        Ok(true)
    }
}

proof fn lemma_book_contains(s: Seq<CustodyAccount>, o: Seq<char>)
    ensures
        book(s).contains_key(o) <==> exists|i: int| 0 <= i < s.len() && #[trigger] s[i].owner@ == o,
    decreases s.len(),
{
    if s.len() > 0 {
        let t = s.drop_last();
        lemma_book_contains(t, o);
        if book(t).contains_key(o) {
            let i = choose|i: int| 0 <= i < t.len() && #[trigger] t[i].owner@ == o;
            assert(s[i] == t[i]);
        }
        if exists|i: int| 0 <= i < s.len() && #[trigger] s[i].owner@ == o {
            let i = choose|i: int| 0 <= i < s.len() && #[trigger] s[i].owner@ == o;
            if i < s.len() - 1 {
                assert(t[i] == s[i]);
            }
        }
    }
}

proof fn lemma_book_at(s: Seq<CustodyAccount>, i: int)
    requires
        owners_unique(s),
        0 <= i < s.len(),
    ensures
        book(s).contains_key(s[i].owner@),
        book(s)[s[i].owner@] == s[i],
    decreases s.len(),
{
    if i < s.len() - 1 {
        let t = s.drop_last();
        assert(t[i] == s[i]);
        assert(owners_unique(t)) by {
            assert forall|a: int, b: int| 0 <= a < t.len() && 0 <= b < t.len() && a != b implies t[a].owner@ != t[b].owner@ by {
                assert(t[a] == s[a] && t[b] == s[b]);
            }
        }
        lemma_book_at(t, i);
        assert(s[s.len() - 1].owner@ != s[i].owner@);
    }
}

proof fn lemma_book_update(s: Seq<CustodyAccount>, i: int, x: CustodyAccount)
    requires
        owners_unique(s),
        0 <= i < s.len(),
        x.owner@ == s[i].owner@,
    ensures
        book(s.update(i, x)) == book(s).insert(x.owner@, x),
        owners_unique(s.update(i, x)),
    decreases s.len(),
{
    let u = s.update(i, x);
    let t = s.drop_last();
    assert(owners_unique(u)) by {
        assert forall|a: int, b: int| 0 <= a < u.len() && 0 <= b < u.len() && a != b implies u[a].owner@ != u[b].owner@ by {
            assert(u[a].owner@ == s[a].owner@ && u[b].owner@ == s[b].owner@);
        }
    }
    if i == s.len() - 1 {
        assert(u.drop_last() =~= t);
        assert(book(u) =~= book(s).insert(x.owner@, x));
    } else {
        assert(u.drop_last() =~= t.update(i, x));
        assert(owners_unique(t)) by {
            assert forall|a: int, b: int| 0 <= a < t.len() && 0 <= b < t.len() && a != b implies t[a].owner@ != t[b].owner@ by {
                assert(t[a] == s[a] && t[b] == s[b]);
            }
        }
        lemma_book_update(t, i, x);
        assert(s.last().owner@ != s[i].owner@);
        assert(book(u) =~= book(s).insert(x.owner@, x));
    }
}

proof fn lemma_book_push(s: Seq<CustodyAccount>, x: CustodyAccount)
    requires
        owners_unique(s),
        !book(s).contains_key(x.owner@),
    ensures
        book(s.push(x)) == book(s).insert(x.owner@, x),
        owners_unique(s.push(x)),
{
    let u = s.push(x);
    assert(u.drop_last() =~= s);
    lemma_book_contains(s, x.owner@);
    assert(owners_unique(u)) by {
        assert forall|a: int, b: int| 0 <= a < u.len() && 0 <= b < u.len() && a != b implies u[a].owner@ != u[b].owner@ by {
            if a < s.len() && b < s.len() {
                assert(u[a] == s[a] && u[b] == s[b]);
            } else if a < s.len() {
                assert(u[a] == s[a]);
            } else {
                assert(u[b] == s[b]);
            }
        }
    }
}

proof fn lemma_book_size(s: Seq<CustodyAccount>)
    requires
        owners_unique(s),
    ensures
        book(s).dom().finite(),
        book(s).dom().len() == s.len(),
    decreases s.len(),
{
    if s.len() > 0 {
        let t = s.drop_last();
        assert(owners_unique(t)) by {
            assert forall|a: int, b: int| 0 <= a < t.len() && 0 <= b < t.len() && a != b implies t[a].owner@ != t[b].owner@ by {
                assert(t[a] == s[a] && t[b] == s[b]);
            }
        }
        lemma_book_size(t);
        lemma_book_contains(t, s.last().owner@);
        if book(t).contains_key(s.last().owner@) {
            let i = choose|i: int| 0 <= i < t.len() && #[trigger] t[i].owner@ == s.last().owner@;
            assert(t[i] == s[i]);
        }
        assert(book(s).dom() =~= book(t).dom().insert(s.last().owner@));
    }
}

/// The custody ledger. It owns every account and the creation counter.
pub struct AssetCustodyContract {
    accounts: Vec<CustodyAccount>,
    total: u64,
}

impl View for AssetCustodyContract {
    type V = LedgerView;

    closed spec fn view(&self) -> LedgerView {
        LedgerView { accounts: book(self.accounts@), total: self.total as nat }
    }
}

impl AssetCustodyContract {
    /// Owners are unique, the counter equals the number of records, and every
    /// stored record has a threshold of at least two, a balance of at least
    /// zero and is active (no operation deactivates an account; the flag is
    /// kept for a later deactivation step).
    pub closed spec fn wf(&self) -> bool {
        &&& owners_unique(self.accounts@)
        &&& self.total as nat == self.accounts@.len()
        &&& forall|i: int| 0 <= i < self.accounts@.len() ==> {
            &&& (#[trigger] self.accounts@[i]).required_signatures >= 2
            &&& self.accounts@[i].balance >= 0
            &&& self.accounts@[i].is_active
        }
    }

    /// An empty ledger.
    pub fn new() -> (r: AssetCustodyContract)
        ensures
            r.wf(),
            r@.accounts == Map::<Seq<char>, CustodyAccount>::empty(),
            r@.total == 0,
    {
        AssetCustodyContract { accounts: Vec::new(), total: 0 }
    }

    fn find_account(&self, owner: &String) -> (r: Option<usize>)
        requires
            self.wf(),
        ensures
            match r {
                Some(i) => {
                    &&& i < self.accounts@.len()
                    &&& self.accounts@[i as int].owner@ == owner@
                    &&& self@.accounts.contains_key(owner@)
                    &&& self@.accounts[owner@] == self.accounts@[i as int]
                },
                None => !self@.accounts.contains_key(owner@),
            },
    {
        let mut i: usize = 0;
        while i < self.accounts.len()
            invariant
                self.wf(),
                0 <= i <= self.accounts@.len(),
                forall|j: int| 0 <= j < i ==> #[trigger] self.accounts@[j].owner@ != owner@,
            decreases self.accounts@.len() - i,
        {
            if self.accounts[i].owner == *owner {
                proof {
                    lemma_book_at(self.accounts@, i as int);
                }
                return Some(i);
            }
            i += 1;
        }
        proof {
            lemma_book_contains(self.accounts@, owner@);
        }
        None
    }

    /// Opens an account for `owner`. An existing account makes this return
    /// `Ok(false)`; a threshold below two is rejected.
    pub fn create_custody_account(
        &mut self,
        auth: &AuthContext,
        owner: &String,
        required_signatures: u32,
        insurance: bool,
    ) -> (r: Result<bool, LedgerError>)
        requires
            old(self).wf(),
        ensures
            final(self).wf(),
            r == create_outcome(old(self)@, auth.authorizes(owner@), owner@, required_signatures),
            r == Ok::<bool, LedgerError>(true) ==> final(self)@ == (LedgerView {
                accounts: old(self)@.accounts.insert(owner@, opened_account(*owner, required_signatures, insurance)),
                total: old(self)@.total + 1,
            }),
            r != Ok::<bool, LedgerError>(true) ==> final(self)@ == old(self)@,
    {
        if !auth.require_auth(owner) {
            return Err(LedgerError::Unauthorized);
        }
        if self.find_account(owner).is_some() {
            return Ok(false);
        }
        if required_signatures < 2 {
            return Err(LedgerError::ThresholdTooLow);
        }
        if self.total == u64::MAX {
            return Err(LedgerError::Overflow);
        }
        let account = CustodyAccount {
            owner: owner.clone(),
            balance: 0,
            required_signatures,
            is_insured: insurance,
            is_active: true,
        };
        proof {
            lemma_book_push(self.accounts@, account);
        }
        let ghost before = self.accounts@;
        self.accounts.push(account);
        self.total = self.total + 1;
        assert forall|i: int| 0 <= i < self.accounts@.len() implies {
            &&& (#[trigger] self.accounts@[i]).required_signatures >= 2
            &&& self.accounts@[i].balance >= 0
            &&& self.accounts@[i].is_active
        } by {
            if i < before.len() {
                assert(self.accounts@[i] == before[i]);
            }
        }
        Ok(true)
    }

    fn set_balance(&mut self, i: usize, balance: i128)
        requires
            old(self).wf(),
            i < old(self).accounts@.len(),
            balance >= 0,
        ensures
            final(self).wf(),
            final(self)@ == (LedgerView {
                accounts: old(self)@.accounts.insert(
                    old(self).accounts@[i as int].owner@,
                    with_balance(old(self).accounts@[i as int], balance as int),
                ),
                total: old(self)@.total,
            }),
    {
        let ghost before = self.accounts@;
        let mut account = self.accounts[i].copied();
        account.balance = balance;
        proof {
            lemma_book_update(before, i as int, account);
        }
        self.accounts.set(i, account);
        assert(self.accounts@ == before.update(i as int, account));
        assert forall|j: int| 0 <= j < self.accounts@.len() implies {
            &&& (#[trigger] self.accounts@[j]).required_signatures >= 2
            &&& self.accounts@[j].balance >= 0
            &&& self.accounts@[j].is_active
        } by {
            if j != i {
                assert(self.accounts@[j] == before[j]);
            }
        }
    }

    /// Adds a positive `amount` to the owner's active account.
    pub fn deposit_assets(&mut self, auth: &AuthContext, owner: &String, amount: i128) -> (r: Result<bool, LedgerError>)
        requires
            old(self).wf(),
        ensures
            final(self).wf(),
            r == deposit_outcome(old(self)@, auth.authorizes(owner@), owner@, amount),
            r == Ok::<bool, LedgerError>(true) ==> final(self)@ == (LedgerView {
                accounts: old(self)@.accounts.insert(
                    owner@,
                    with_balance(old(self)@.accounts[owner@], old(self)@.accounts[owner@].balance + amount),
                ),
                total: old(self)@.total,
            }),
            r != Ok::<bool, LedgerError>(true) ==> final(self)@ == old(self)@,
    {
        if !auth.require_auth(owner) {
            return Err(LedgerError::Unauthorized);
        }
        if amount <= 0 {
            return Err(LedgerError::NonPositiveAmount);
        }
        let i = match self.find_account(owner) {
            Some(i) => i,
            None => return Err(LedgerError::AccountNotFound),
        };
        if !self.accounts[i].is_active {
            return Err(LedgerError::AccountInactive);
        }
        let balance = match self.accounts[i].balance.checked_add(amount) {
            Some(b) => b,
            None => return Err(LedgerError::Overflow),
        };
        self.set_balance(i, balance);
        Ok(true)
    }

    /// Takes a positive `amount` from the owner's active account, provided that
    /// `signatures_count` meets the account's threshold and the balance covers it.
    /// The count is taken as given: no signer identity is checked here.
    pub fn withdraw_assets(
        &mut self,
        auth: &AuthContext,
        owner: &String,
        amount: i128,
        signatures_count: u32,
    ) -> (r: Result<bool, LedgerError>)
        requires
            old(self).wf(),
        ensures
            final(self).wf(),
            r == withdraw_outcome(old(self)@, auth.authorizes(owner@), owner@, amount, signatures_count),
            r == Ok::<bool, LedgerError>(true) ==> final(self)@ == (LedgerView {
                accounts: old(self)@.accounts.insert(
                    owner@,
                    with_balance(old(self)@.accounts[owner@], old(self)@.accounts[owner@].balance - amount),
                ),
                total: old(self)@.total,
            }),
            r != Ok::<bool, LedgerError>(true) ==> final(self)@ == old(self)@,
    {
        if !auth.require_auth(owner) {
            return Err(LedgerError::Unauthorized);
        }
        if amount <= 0 {
            return Err(LedgerError::NonPositiveAmount);
        }
        let i = match self.find_account(owner) {
            Some(i) => i,
            None => return Err(LedgerError::AccountNotFound),
        };
        if !self.accounts[i].is_active {
            return Err(LedgerError::AccountInactive);
        }
        if signatures_count < self.accounts[i].required_signatures {
            return Err(LedgerError::InsufficientSignatures);
        }
        if self.accounts[i].balance < amount {
            return Err(LedgerError::InsufficientBalance);
        }
        let balance = self.accounts[i].balance - amount;
        self.set_balance(i, balance);
        Ok(true)
    }

    /// The owner's record, or a zeroed inactive record when there is none.
    pub fn view_custody_account(&self, owner: &String) -> (r: CustodyAccount)
        requires
            self.wf(),
        ensures
            self@.accounts.contains_key(owner@) ==> r == self@.accounts[owner@],
            !self@.accounts.contains_key(owner@) ==> r == absent_account(*owner),
    {
        match self.find_account(owner) {
            Some(i) => self.accounts[i].copied(),
            None => CustodyAccount {
                owner: owner.clone(),
                balance: 0,
                required_signatures: 0,
                is_insured: false,
                is_active: false,
            },
        }
    }

    /// How many accounts were ever created.
    pub fn total_accounts(&self) -> (r: u64)
        ensures
            r as nat == self@.total,
    {
        self.total
    }
}

/// The creation counter always equals the number of accounts the ledger
/// holds; since only a successful creation adds an account and raises the
/// counter, it counts the creations that succeeded.
pub proof fn lemma_total_counts_accounts(c: AssetCustodyContract)
    requires
        c.wf(),
    ensures
        c@.accounts.dom().finite(),
        c@.total == c@.accounts.dom().len(),
{
    lemma_book_size(c.accounts@);
}

/// A stored account is active and has a threshold of at least two, so it is
/// never mistaken for the inactive zero-threshold record returned for an
/// owner without an account.
pub proof fn lemma_absent_record_distinct(c: AssetCustodyContract, owner: Seq<char>)
    requires
        c.wf(),
        c@.accounts.contains_key(owner),
    ensures
        c@.accounts[owner].required_signatures >= 2,
        c@.accounts[owner].is_active,
        c@.accounts[owner] != absent_account(c@.accounts[owner].owner),
{
    lemma_book_contains(c.accounts@, owner);
    let i = choose|i: int| 0 <= i < c.accounts@.len() && #[trigger] c.accounts@[i].owner@ == owner;
    lemma_book_at(c.accounts@, i);
}

/// A creation for an owner that already has an account, or with a threshold
/// below two, never succeeds, so it adds no account and leaves the counter.
pub proof fn lemma_create_refusals(v: LedgerView, authorized: bool, owner: Seq<char>, required: u32)
    ensures
        v.accounts.contains_key(owner) ==> create_outcome(v, authorized, owner, required) != Ok::<bool, LedgerError>(true),
        authorized && v.accounts.contains_key(owner) ==> create_outcome(v, authorized, owner, required) == Ok::<bool, LedgerError>(false),
        required < 2 ==> create_outcome(v, authorized, owner, required) != Ok::<bool, LedgerError>(true),
{
}

/// A deposit or withdrawal of zero or less never succeeds.
pub proof fn lemma_non_positive_amount_refused(v: LedgerView, authorized: bool, owner: Seq<char>, amount: i128, signatures_count: u32)
    requires
        amount <= 0,
    ensures
        deposit_outcome(v, authorized, owner, amount) != Ok::<bool, LedgerError>(true),
        withdraw_outcome(v, authorized, owner, amount, signatures_count) != Ok::<bool, LedgerError>(true),
{
}

/// For an authorized owner with an active account and a positive amount, a
/// withdrawal succeeds exactly when the supplied count meets the account's
/// threshold and the balance covers the amount.
pub proof fn lemma_withdraw_succeeds_iff(v: LedgerView, owner: Seq<char>, amount: i128, signatures_count: u32)
    requires
        amount > 0,
        v.accounts.contains_key(owner),
        v.accounts[owner].is_active,
    ensures
        withdraw_outcome(v, true, owner, amount, signatures_count) == Ok::<bool, LedgerError>(true) <==> (
        signatures_count >= v.accounts[owner].required_signatures && v.accounts[owner].balance >= amount),
{
}

} // verus!
