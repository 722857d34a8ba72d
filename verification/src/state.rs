//! The mutable processing state: call-frame stack, state and code databases,
//! access list, reversible-write log, and process-wide counters.
use vstd::prelude::*;

use crate::mem::Memory;
use crate::operation::{
    balance_write_op, step_meta_eq, AccountField, Error, ExecStep, OpKind, Operation, Warning, RW,
};
use crate::trace::{spec_nth_last, TraceStep};
use crate::word::{addr_of, empty_code_hash, spec_word_add, spec_word_sub, word_zero, Word};

verus! {

/// Read-only snapshot of one account in the state database.
#[derive(Clone, Copy, PartialEq, Eq, Structural, Debug)]
pub struct Account {
    pub address: Word,
    pub nonce: Word,
    pub balance: Word,
    pub code_hash: Word,
}

/// One warm `(transaction, address)` pair of the access list.
#[derive(Clone, Copy, PartialEq, Eq, Structural, Debug)]
pub struct AccessListEntry {
    pub tx_id: u64,
    pub address: Word,
}

/// One undoable state write: the value to restore if the frame that made it
/// is unwound.
#[derive(Clone, Copy, PartialEq, Eq, Structural, Debug)]
pub enum RevEntry {
    /// Warm-status restore of `(tx_id, address)`.
    AccessList { tx_id: u64, address: Word, was_warm: bool },
    /// Balance restore of `address`.
    Balance { address: Word, balance_prev: Word },
}

/// The account snapshot an absent address reads as: all fields zero.
pub open spec fn absent_account(address: Word) -> Account {
    Account { address, nonce: word_zero(), balance: word_zero(), code_hash: word_zero() }
}

/// An account is empty when it has zero nonce and balance and no code; an
/// address the database does not hold reads as an all-zero snapshot, so a
/// zero code hash counts as "no code" beside the canonical empty-code hash.
pub open spec fn spec_account_is_empty(a: Account) -> bool {
    a.nonce.as_nat() == 0 && a.balance.as_nat() == 0 && (a.code_hash == empty_code_hash()
        || a.code_hash.as_nat() == 0)
}

impl Account {
    /// Whether the account is empty in the pricing sense: zero nonce, zero
    /// balance, and no code.
    pub fn is_empty(&self) -> (r: bool)
        ensures
            r == spec_account_is_empty(*self),
    {
        let eh: Word = crate::word::make_empty_code_hash();
        self.nonce.is_zero() && self.balance.is_zero() && (self.code_hash == eh
            || self.code_hash.is_zero())
    }
}

/// Index of the first account with `address`, or -1.
pub open spec fn find_account(s: Seq<Account>, address: Word) -> int
    decreases s.len(),
{
    if s.len() == 0 {
        -1
    } else if s[0].address == address {
        0
    } else {
        let r = find_account(s.drop_first(), address);
        if r < 0 {
            -1
        } else {
            r + 1
        }
    }
}

/// What `find_account` returns: the first matching index, or -1 when no
/// entry matches.
pub proof fn lemma_find_account(s: Seq<Account>, address: Word)
    ensures
        find_account(s, address) == -1 || 0 <= find_account(s, address) < s.len(),
        find_account(s, address) >= 0 ==> s[find_account(s, address)].address == address,
        find_account(s, address) >= 0 ==> forall|j: int|
            0 <= j < find_account(s, address) ==> s[j].address != address,
        find_account(s, address) == -1 ==> forall|j: int|
            0 <= j < s.len() ==> s[j].address != address,
    decreases s.len(),
{
    if s.len() > 0 && s[0].address != address {
        lemma_find_account(s.drop_first(), address);
        let f = find_account(s, address);
        if f >= 0 {
            assert forall|j: int| 0 <= j < f implies s[j].address != address by {
                if j > 0 {
                    assert(s.drop_first()[j - 1] == s[j]);
                }
            }
        } else {
            assert forall|j: int| 0 <= j < s.len() implies s[j].address != address by {
                if j > 0 {
                    assert(s.drop_first()[j - 1] == s[j]);
                }
            }
        }
    }
}

/// The snapshot `address` reads as: the stored account, or all zeros.
pub open spec fn lookup_account(s: Seq<Account>, address: Word) -> Account {
    if find_account(s, address) >= 0 {
        s[find_account(s, address)]
    } else {
        absent_account(address)
    }
}

/// Whether the database holds `address`.
pub open spec fn has_account(s: Seq<Account>, address: Word) -> bool {
    find_account(s, address) >= 0
}

/// The database after setting the balance of `address`; unchanged when the
/// address is absent.
pub open spec fn set_balance(s: Seq<Account>, address: Word, balance: Word) -> Seq<Account> {
    let f = find_account(s, address);
    if f >= 0 {
        s.update(f, (Account { balance, ..s[f] }))
    } else {
        s
    }
}

/// Index of the first access-list entry for `(tx_id, address)`, or -1.
pub open spec fn find_al(s: Seq<AccessListEntry>, tx_id: u64, address: Word) -> int
    decreases s.len(),
{
    if s.len() == 0 {
        -1
    } else if s[0].tx_id == tx_id && s[0].address == address {
        0
    } else {
        let r = find_al(s.drop_first(), tx_id, address);
        if r < 0 {
            -1
        } else {
            r + 1
        }
    }
}

/// What `find_al` returns: the first matching index, or -1 when no entry
/// matches.
pub proof fn lemma_find_al(s: Seq<AccessListEntry>, tx_id: u64, address: Word)
    ensures
        find_al(s, tx_id, address) == -1 || 0 <= find_al(s, tx_id, address) < s.len(),
        find_al(s, tx_id, address) >= 0 ==> s[find_al(s, tx_id, address)].tx_id == tx_id
            && s[find_al(s, tx_id, address)].address == address,
        find_al(s, tx_id, address) >= 0 ==> forall|j: int|
            0 <= j < find_al(s, tx_id, address) ==> !(s[j].tx_id == tx_id && s[j].address
                == address),
        find_al(s, tx_id, address) == -1 ==> forall|j: int|
            0 <= j < s.len() ==> !(s[j].tx_id == tx_id && s[j].address == address),
    decreases s.len(),
{
    if s.len() > 0 && !(s[0].tx_id == tx_id && s[0].address == address) {
        lemma_find_al(s.drop_first(), tx_id, address);
        let f = find_al(s, tx_id, address);
        if f >= 0 {
            assert forall|j: int| 0 <= j < f implies !(s[j].tx_id == tx_id && s[j].address
                == address) by {
                if j > 0 {
                    assert(s.drop_first()[j - 1] == s[j]);
                }
            }
        } else {
            assert forall|j: int| 0 <= j < s.len() implies !(s[j].tx_id == tx_id && s[j].address
                == address) by {
                if j > 0 {
                    assert(s.drop_first()[j - 1] == s[j]);
                }
            }
        }
    }
}

/// Whether `(tx_id, address)` is warm.
pub open spec fn al_contains(s: Seq<AccessListEntry>, tx_id: u64, address: Word) -> bool {
    find_al(s, tx_id, address) >= 0
}

/// The access list with `(tx_id, address)` warm: unchanged when already
/// present, else the entry appended.
pub open spec fn al_insert(s: Seq<AccessListEntry>, tx_id: u64, address: Word) -> Seq<
    AccessListEntry,
> {
    if al_contains(s, tx_id, address) {
        s
    } else {
        s.push(AccessListEntry { tx_id, address })
    }
}

/// The access list with the first `(tx_id, address)` entry removed;
/// unchanged when none is present.
pub open spec fn al_remove(s: Seq<AccessListEntry>, tx_id: u64, address: Word) -> Seq<
    AccessListEntry,
> {
    let f = find_al(s, tx_id, address);
    if f >= 0 {
        s.remove(f)
    } else {
        s
    }
}

/// The state database: account snapshots and the per-transaction access
/// list.
pub struct StateDB {
    pub accounts: Vec<Account>,
    pub access_list: Vec<AccessListEntry>,
}

impl StateDB {
    /// An empty database.
    pub fn new() -> (r: StateDB)
        ensures
            r.accounts@ == Seq::<Account>::empty(),
            r.access_list@ == Seq::<AccessListEntry>::empty(),
    {
        StateDB { accounts: Vec::new(), access_list: Vec::new() }
    }

    /// Reads `address`: whether the database holds it, and its snapshot
    /// (all zeros when absent).
    pub fn get_account(&self, address: &Word) -> (r: (bool, Account))
        ensures
            r.0 == has_account(self.accounts@, *address),
            r.1 == lookup_account(self.accounts@, *address),
    {
        proof {
            lemma_find_account(self.accounts@, *address);
        }
        let n: usize = self.accounts.len();
        let mut i: usize = 0;
        while i < n
            invariant
                n == self.accounts@.len(),
                i <= n,
                forall|j: int| 0 <= j < i ==> self.accounts@[j].address != *address,
            decreases n - i,
        {
            if self.accounts[i].address == *address {
                proof {
                    lemma_find_account(self.accounts@, *address);
                }
                return (true, self.accounts[i]);
            }
            i = i + 1;
        }
        (false, Account {
            address: *address,
            nonce: Word::zero(),
            balance: Word::zero(),
            code_hash: Word::zero(),
        })
    }

    /// Stores `account`, replacing the snapshot of its address if one is
    /// held, else appending it.
    pub fn set_account(&mut self, account: Account)
        ensures
            ({
                let f = find_account(old(self).accounts@, account.address);
                if f >= 0 {
                    final(self).accounts@ == old(self).accounts@.update(f, account)
                } else {
                    final(self).accounts@ == old(self).accounts@.push(account)
                }
            }),
            final(self).access_list@ == old(self).access_list@,
    {
        proof {
            lemma_find_account(self.accounts@, account.address);
        }
        let n: usize = self.accounts.len();
        let mut i: usize = 0;
        while i < n
            invariant
                n == self.accounts@.len(),
                i <= n,
                self.accounts@ == old(self).accounts@,
                self.access_list@ == old(self).access_list@,
                forall|j: int| 0 <= j < i ==> self.accounts@[j].address != account.address,
            decreases n - i,
        {
            if self.accounts[i].address == account.address {
                proof {
                    lemma_find_account(self.accounts@, account.address);
                }
                set_account_at(&mut self.accounts, i, account);
                return ;
            }
            i = i + 1;
        }
        self.accounts.push(account);
    }

    /// Sets the balance of `address`; a no-op when the database does not
    /// hold the address.
    pub fn set_balance(&mut self, address: &Word, balance: Word)
        ensures
            final(self).accounts@ == set_balance(old(self).accounts@, *address, balance),
            final(self).access_list@ == old(self).access_list@,
    {
        proof {
            lemma_find_account(self.accounts@, *address);
        }
        let n: usize = self.accounts.len();
        let mut i: usize = 0;
        while i < n
            invariant
                n == self.accounts@.len(),
                i <= n,
                self.accounts@ == old(self).accounts@,
                self.access_list@ == old(self).access_list@,
                forall|j: int| 0 <= j < i ==> self.accounts@[j].address != *address,
            decreases n - i,
        {
            if self.accounts[i].address == *address {
                proof {
                    lemma_find_account(self.accounts@, *address);
                }
                let a: Account = self.accounts[i];
                set_account_at(&mut self.accounts, i, (Account { balance, ..a }));
                return ;
            }
            i = i + 1;
        }
    }

    /// Whether `(tx_id, address)` is warm in this transaction.
    pub fn check_account_in_access_list(&self, tx_id: u64, address: &Word) -> (r: bool)
        ensures
            r == al_contains(self.access_list@, tx_id, *address),
    {
        proof {
            lemma_find_al(self.access_list@, tx_id, *address);
        }
        let n: usize = self.access_list.len();
        let mut i: usize = 0;
        while i < n
            invariant
                n == self.access_list@.len(),
                i <= n,
                forall|j: int|
                    0 <= j < i ==> !(self.access_list@[j].tx_id == tx_id
                        && self.access_list@[j].address == *address),
            decreases n - i,
        {
            if self.access_list[i].tx_id == tx_id && self.access_list[i].address == *address {
                proof {
                    lemma_find_al(self.access_list@, tx_id, *address);
                }
                return true;
            }
            i = i + 1;
        }
        false
    }

    /// Marks `(tx_id, address)` warm.
    pub fn add_account_to_access_list(&mut self, tx_id: u64, address: &Word)
        ensures
            final(self).access_list@ == al_insert(old(self).access_list@, tx_id, *address),
            final(self).accounts@ == old(self).accounts@,
    {
        let warm: bool = self.check_account_in_access_list(tx_id, address);
        if !warm {
            self.access_list.push(AccessListEntry { tx_id, address: *address });
        }
    }

    /// Removes the warm mark of `(tx_id, address)`; a no-op when it is not
    /// warm.
    pub fn remove_account_from_access_list(&mut self, tx_id: u64, address: &Word)
        ensures
            final(self).access_list@ == al_remove(old(self).access_list@, tx_id, *address),
            final(self).accounts@ == old(self).accounts@,
    {
        proof {
            lemma_find_al(self.access_list@, tx_id, *address);
        }
        let n: usize = self.access_list.len();
        let mut i: usize = 0;
        while i < n
            invariant
                n == self.access_list@.len(),
                i <= n,
                self.access_list@ == old(self).access_list@,
                self.accounts@ == old(self).accounts@,
                forall|j: int|
                    0 <= j < i ==> !(self.access_list@[j].tx_id == tx_id
                        && self.access_list@[j].address == *address),
            decreases n - i,
        {
            if self.access_list[i].tx_id == tx_id && self.access_list[i].address == *address {
                proof {
                    lemma_find_al(self.access_list@, tx_id, *address);
                }
                let _ = self.access_list.remove(i);
                return ;
            }
            i = i + 1;
        }
    }
}

/// Stores one element of an account vector.
fn set_account_at(v: &mut Vec<Account>, i: usize, a: Account)
    requires
        i < old(v)@.len(),
    ensures
        final(v)@ == old(v)@.update(i as int, a),
{
    let r = &mut v[i];
    *r = a;
}

/// Bytecode registered for one contract address.
pub struct CodeEntry {
    pub address: Word,
    pub code: Vec<u8>,
}

/// Index of the first code entry for `address`, or -1.
pub open spec fn find_code(s: Seq<CodeEntry>, address: Word) -> int
    decreases s.len(),
{
    if s.len() == 0 {
        -1
    } else if s[0].address == address {
        0
    } else {
        let r = find_code(s.drop_first(), address);
        if r < 0 {
            -1
        } else {
            r + 1
        }
    }
}

/// What `find_code` returns: the first matching index, or -1 when no entry
/// matches.
pub proof fn lemma_find_code(s: Seq<CodeEntry>, address: Word)
    ensures
        find_code(s, address) == -1 || 0 <= find_code(s, address) < s.len(),
        find_code(s, address) >= 0 ==> s[find_code(s, address)].address == address,
        find_code(s, address) >= 0 ==> forall|j: int|
            0 <= j < find_code(s, address) ==> s[j].address != address,
        find_code(s, address) == -1 ==> forall|j: int|
            0 <= j < s.len() ==> s[j].address != address,
    decreases s.len(),
{
    if s.len() > 0 && s[0].address != address {
        lemma_find_code(s.drop_first(), address);
        let f = find_code(s, address);
        if f >= 0 {
            assert forall|j: int| 0 <= j < f implies s[j].address != address by {
                if j > 0 {
                    assert(s.drop_first()[j - 1] == s[j]);
                }
            }
        } else {
            assert forall|j: int| 0 <= j < s.len() implies s[j].address != address by {
                if j > 0 {
                    assert(s.drop_first()[j - 1] == s[j]);
                }
            }
        }
    }
}

/// The bytecode registered for `address`, if any.
pub open spec fn code_lookup(s: Seq<CodeEntry>, address: Word) -> Option<Seq<u8>> {
    if find_code(s, address) >= 0 {
        Some(s[find_code(s, address)].code@)
    } else {
        None
    }
}

/// The code database: deployed bytecode keyed by contract address.
pub struct CodeDB {
    pub entries: Vec<CodeEntry>,
}

impl CodeDB {
    /// An empty database.
    pub fn new() -> (r: CodeDB)
        ensures
            r.entries@.len() == 0,
    {
        CodeDB { entries: Vec::new() }
    }

    /// Registers `code` for `address`, replacing what the address held.
    pub fn insert(&mut self, address: Word, code: Vec<u8>)
        ensures
            ({
                let f = find_code(old(self).entries@, address);
                if f >= 0 {
                    &&& final(self).entries@.len() == old(self).entries@.len()
                    &&& final(self).entries@[f].address == address
                    &&& final(self).entries@[f].code@ == code@
                    &&& forall|j: int|
                        0 <= j < old(self).entries@.len() && j != f ==> final(self).entries@[j]
                            == old(self).entries@[j]
                } else {
                    &&& final(self).entries@.len() == old(self).entries@.len() + 1
                    &&& final(self).entries@.last().address == address
                    &&& final(self).entries@.last().code@ == code@
                    &&& final(self).entries@.drop_last() == old(self).entries@
                }
            }),
            code_lookup(final(self).entries@, address) == Some(code@),
    {
        proof {
            lemma_find_code(self.entries@, address);
        }
        let ghost old_entries = self.entries@;
        let n: usize = self.entries.len();
        let mut i: usize = 0;
        while i < n
            invariant
                n == self.entries@.len(),
                i <= n,
                old_entries == old(self).entries@,
                self.entries@ == old_entries,
                forall|j: int| 0 <= j < i ==> self.entries@[j].address != address,
            decreases n - i,
        {
            if self.entries[i].address == address {
                proof {
                    lemma_find_code(self.entries@, address);
                }
                proof {
                    assert(find_code(old_entries, address) == i as int);
                }
                let _ = self.entries.remove(i);
                self.entries.insert(i, CodeEntry { address, code });
                proof {
                    assert(self.entries@[i as int].address == address);
                    assert(forall|j: int| 0 <= j < i ==> self.entries@[j] == old_entries[j]);
                    assert(forall|j: int|
                        i < j < old_entries.len() ==> self.entries@[j] == old_entries[j]);
                    lemma_find_code(self.entries@, address);
                    assert(find_code(self.entries@, address) == i as int);
                }
                return ;
            }
            i = i + 1;
        }
        self.entries.push(CodeEntry { address, code });
        proof {
            assert(self.entries@[n as int].address == address);
            assert(forall|j: int| 0 <= j < n ==> self.entries@[j] == old_entries[j]);
            lemma_find_code(self.entries@, address);
            assert(self.entries@.drop_last() =~= old_entries);
            assert(find_code(self.entries@, address) == n as int);
        }
    }

    /// The bytecode registered for `address`, if any.
    pub fn get_code(&self, address: &Word) -> (r: Option<&Vec<u8>>)
        ensures
            match r {
                Some(c) => code_lookup(self.entries@, *address) == Some(c@),
                None => code_lookup(self.entries@, *address) is None,
            },
    {
        proof {
            lemma_find_code(self.entries@, *address);
        }
        let n: usize = self.entries.len();
        let mut i: usize = 0;
        while i < n
            invariant
                n == self.entries@.len(),
                i <= n,
                forall|j: int| 0 <= j < i ==> self.entries@[j].address != *address,
            decreases n - i,
        {
            if self.entries[i].address == *address {
                proof {
                    lemma_find_code(self.entries@, *address);
                }
                return Some(&self.entries[i].code);
            }
            i = i + 1;
        }
        None
    }
}

/// Descriptor of one call invocation: everything about a frame except its
/// byte buffers.
#[derive(Clone, Copy, PartialEq, Eq, Structural, Debug)]
pub struct Call {
    /// Process-unique identifier, strictly increasing over a run.
    pub call_id: u64,
    /// `call_id` of the frame that entered this one; 0 at the root.
    pub caller_id: u64,
    pub caller_address: Word,
    /// The executing (callee) address.
    pub address: Word,
    /// Value transferred by the call.
    pub value: Word,
    /// Call-data window the caller handed in, in the caller's memory.
    pub call_data_offset: u64,
    pub call_data_length: u64,
    /// Return-data window the caller reserved, in the caller's memory.
    pub return_data_offset: u64,
    pub return_data_length: u64,
    pub depth: u64,
    pub is_static: bool,
    pub is_root: bool,
    pub is_create: bool,
    /// Whether the frame's effects, if it succeeds, commit all the way to
    /// the transaction root.
    pub is_persistent: bool,
    pub is_success: bool,
    pub code_hash: Word,
    /// Placeholder, written as 0 and resolved in a later pass once the full
    /// reversible-region size is known.
    pub rw_counter_end_of_reversion: u64,
    /// Reversible writes recorded in this frame's revertible region.
    pub reversible_write_counter: u64,
    /// Position in the reversible-write log where this frame's region
    /// starts.
    pub rev_log_start: usize,
    /// Outcome of the frame's most recent completed subcall.
    pub last_callee_id: u64,
    pub last_callee_return_data_offset: u64,
    pub last_callee_return_data_length: u64,
}

/// One active call frame: its descriptor and its byte buffers.
pub struct CallContext {
    pub call: Call,
    /// The frame's growable memory image.
    pub memory: Memory,
    /// RETURNDATA of the frame's most recent completed subcall.
    pub return_data: Vec<u8>,
}

/// Well-formedness of the frame stack: call identifiers strictly increase
/// from root to top and stay below the allocation counter, and every frame's
/// revertible region starts inside the log, later frames no earlier than
/// earlier ones.
pub open spec fn frames_wf(frames: Seq<CallContext>, next_call_id: u64, log_len: int) -> bool {
    &&& forall|i: int| 0 <= i < frames.len() ==> #[trigger] frames[i].call.call_id < next_call_id
    &&& forall|i: int, j: int|
        0 <= i < j < frames.len() ==> #[trigger] frames[i].call.call_id
            < #[trigger] frames[j].call.call_id
    &&& forall|i: int| 0 <= i < frames.len() ==> #[trigger] frames[i].call.rev_log_start <= log_len
    &&& forall|i: int, j: int|
        0 <= i < j < frames.len() ==> #[trigger] frames[i].call.rev_log_start
            <= #[trigger] frames[j].call.rev_log_start
}

/// The account snapshots after undoing the reversible writes of `log`, in
/// reverse order.
pub open spec fn undo_accounts(accounts: Seq<Account>, log: Seq<RevEntry>) -> Seq<Account>
    decreases log.len(),
{
    if log.len() == 0 {
        accounts
    } else {
        let rest = undo_accounts(accounts, log.drop_first());
        match log[0] {
            RevEntry::Balance { address, balance_prev } => set_balance(rest, address, balance_prev),
            RevEntry::AccessList { .. } => rest,
        }
    }
}

/// The access list after undoing the reversible writes of `log`, in reverse
/// order: a warm mark whose previous state was cold is removed.
pub open spec fn undo_al(al: Seq<AccessListEntry>, log: Seq<RevEntry>) -> Seq<AccessListEntry>
    decreases log.len(),
{
    if log.len() == 0 {
        al
    } else {
        let rest = undo_al(al, log.drop_first());
        match log[0] {
            RevEntry::AccessList { tx_id, address, was_warm } => if was_warm {
                rest
            } else {
                al_remove(rest, tx_id, address)
            },
            RevEntry::Balance { .. } => rest,
        }
    }
}

/// The mutable state a run of the builder threads through every handler:
/// the frame stack, the databases, the undo log, and the process-wide
/// counters.
pub struct State {
    /// Identifier of the transaction being processed.
    pub tx_id: u64,
    /// Next call identifier to assign; assigned values strictly increase.
    pub next_call_id: u64,
    /// How many calls of this transaction were entered so far.
    pub calls_made: usize,
    /// Externally determined outcome of each call of the transaction, in
    /// the order the calls are entered.
    pub call_is_success: Vec<bool>,
    /// Active frames, root first, current last.
    pub frames: Vec<CallContext>,
    /// Account state and access list.
    pub sdb: StateDB,
    /// Deployed bytecode.
    pub code_db: CodeDB,
    /// Reversible writes not yet committed past doubt, in execution order.
    pub rev_log: Vec<RevEntry>,
    /// Gaps encountered while processing; never fatal, never silent.
    pub warnings: Vec<Warning>,
}

impl State {
    /// Well-formedness the handlers preserve.
    pub open spec fn wf(self) -> bool {
        frames_wf(self.frames@, self.next_call_id, self.rev_log@.len() as int)
    }

    /// A fresh state for one transaction, with no frames and empty
    /// databases. `call_is_success` lists the outcome of each call the
    /// transaction will enter, in order.
    pub fn new(tx_id: u64, call_is_success: Vec<bool>) -> (r: State)
        ensures
            r.tx_id == tx_id,
            r.next_call_id == 1,
            r.calls_made == 0,
            r.call_is_success@ == call_is_success@,
            r.frames@.len() == 0,
            r.sdb.accounts@.len() == 0,
            r.sdb.access_list@.len() == 0,
            r.code_db.entries@.len() == 0,
            r.rev_log@.len() == 0,
            r.warnings@.len() == 0,
            r.wf(),
    {
        State {
            tx_id,
            next_call_id: 1,
            calls_made: 0,
            call_is_success,
            frames: Vec::new(),
            sdb: StateDB::new(),
            code_db: CodeDB::new(),
            rev_log: Vec::new(),
            warnings: Vec::new(),
        }
    }

    /// Takes the next process-unique call identifier.
    pub fn assign_call_id(&mut self) -> (r: u64)
        requires
            old(self).next_call_id < u64::MAX,
        ensures
            r == old(self).next_call_id,
            final(self).next_call_id == old(self).next_call_id + 1,
            final(self).tx_id == old(self).tx_id,
            final(self).calls_made == old(self).calls_made,
            final(self).call_is_success == old(self).call_is_success,
            final(self).frames == old(self).frames,
            final(self).sdb == old(self).sdb,
            final(self).code_db == old(self).code_db,
            final(self).rev_log == old(self).rev_log,
            final(self).warnings == old(self).warnings,
    {
        let r: u64 = self.next_call_id;
        self.next_call_id = self.next_call_id + 1;
        r
    }

    /// The descriptor of the current (top) frame, or `EmptyCallStack`.
    pub fn call(&self) -> (r: Result<Call, Error>)
        ensures
            match r {
                Ok(c) => self.frames@.len() > 0 && c == self.frames@.last().call,
                Err(e) => self.frames@.len() == 0 && e == Error::EmptyCallStack,
            },
    {
        if self.frames.len() == 0 {
            Err(Error::EmptyCallStack)
        } else {
            Ok(self.frames[self.frames.len() - 1].call)
        }
    }

    /// The descriptor of the caller frame, second from the top, or
    /// `NoCallerFrame`.
    pub fn caller(&self) -> (r: Result<Call, Error>)
        ensures
            match r {
                Ok(c) => self.frames@.len() >= 2 && c == self.frames@[self.frames@.len()
                    - 2].call,
                Err(e) => self.frames@.len() < 2 && e == Error::NoCallerFrame,
            },
    {
        if self.frames.len() < 2 {
            Err(Error::NoCallerFrame)
        } else {
            Ok(self.frames[self.frames.len() - 2].call)
        }
    }

    /// Opens a fresh execution step for one trace record: its coordinates,
    /// no error, no operations, and the current frame's reversible-write
    /// counter.
    pub fn new_step(&self, step: &TraceStep) -> (r: Result<ExecStep, Error>)
        ensures
            match r {
                Ok(s) => {
                    &&& self.frames@.len() > 0
                    &&& s.pc == step.pc
                    &&& s.op == step.op
                    &&& s.gas == step.gas
                    &&& s.depth == step.depth
                    &&& s.error is None
                    &&& s.reversible_write_counter
                        == self.frames@.last().call.reversible_write_counter
                    &&& s.bus_ops@.len() == 0
                },
                Err(e) => self.frames@.len() == 0 && e == Error::EmptyCallStack,
            },
    {
        if self.frames.len() == 0 {
            return Err(Error::EmptyCallStack);
        }
        let cur: Call = self.frames[self.frames.len() - 1].call;
        Ok(
            ExecStep {
                pc: step.pc,
                op: step.op,
                gas: step.gas,
                depth: step.depth,
                error: None,
                reversible_write_counter: cur.reversible_write_counter,
                bus_ops: Vec::new(),
            },
        )
    }

    /// Records a gap warning.
    pub fn warn(&mut self, w: Warning)
        ensures
            final(self).warnings@ == old(self).warnings@.push(w),
            final(self).tx_id == old(self).tx_id,
            final(self).next_call_id == old(self).next_call_id,
            final(self).calls_made == old(self).calls_made,
            final(self).call_is_success == old(self).call_is_success,
            final(self).frames == old(self).frames,
            final(self).sdb == old(self).sdb,
            final(self).code_db == old(self).code_db,
            final(self).rev_log == old(self).rev_log,
    {
        self.warnings.push(w);
    }

    /// Pushes a frame for `c` onto the call stack. The frame starts with
    /// empty buffers, a zero reversible-write counter, and its revertible
    /// region opening at the current end of the undo log.
    pub fn push_call(&mut self, c: Call)
        requires
            old(self).wf(),
            c.call_id < old(self).next_call_id,
            old(self).frames@.len() > 0 ==> old(self).frames@.last().call.call_id < c.call_id,
        ensures
            final(self).frames@.len() == old(self).frames@.len() + 1,
            final(self).frames@.drop_last() == old(self).frames@,
            final(self).frames@.last().call == (Call {
                reversible_write_counter: 0,
                rev_log_start: old(self).rev_log@.len() as usize,
                ..c
            }),
            final(self).frames@.last().memory@ == Seq::<u8>::empty(),
            final(self).frames@.last().return_data@ == Seq::<u8>::empty(),
            final(self).tx_id == old(self).tx_id,
            final(self).next_call_id == old(self).next_call_id,
            final(self).calls_made == old(self).calls_made,
            final(self).call_is_success == old(self).call_is_success,
            final(self).sdb == old(self).sdb,
            final(self).code_db == old(self).code_db,
            final(self).rev_log == old(self).rev_log,
            final(self).warnings == old(self).warnings,
            final(self).wf(),
    {
        let start: usize = self.rev_log.len();
        let frame = CallContext {
            call: Call { reversible_write_counter: 0, rev_log_start: start, ..c },
            memory: Memory::new(),
            return_data: Vec::new(),
        };
        self.frames.push(frame);
        proof {
            assert(self.frames@.drop_last() =~= old(self).frames@);
        }
    }

    /// Pops the current frame. When the popped frame did not succeed, its
    /// revertible region — every reversible write logged since the frame was
    /// entered — is undone in reverse order and dropped from the log.
    pub fn handle_return(&mut self)
        requires
            old(self).wf(),
            old(self).frames@.len() > 0,
        ensures
            popped_state_rel(*old(self), *final(self)),
            final(self).wf(),
    {
        let fr_opt = self.frames.pop();
        let fr: CallContext = fr_opt.unwrap();
        if !fr.call.is_success {
            let start: usize = fr.call.rev_log_start;
            let ghost log0 = self.rev_log@;
            let ghost acc0 = self.sdb.accounts@;
            let ghost al0 = self.sdb.access_list@;
            proof {
                assert(log0.skip(log0.len() as int) =~= Seq::<RevEntry>::empty());
            }
            let mut j: usize = self.rev_log.len();
            while j > start
                invariant
                    start <= j <= log0.len(),
                    log0 == old(self).rev_log@,
                    self.rev_log@ == log0,
                    self.frames@ == old(self).frames@.drop_last(),
                    self.sdb.accounts@ == undo_accounts(acc0, log0.skip(j as int)),
                    self.sdb.access_list@ == undo_al(al0, log0.skip(j as int)),
                    acc0 == old(self).sdb.accounts@,
                    al0 == old(self).sdb.access_list@,
                    self.tx_id == old(self).tx_id,
                    self.next_call_id == old(self).next_call_id,
                    self.calls_made == old(self).calls_made,
                    self.call_is_success == old(self).call_is_success,
                    self.code_db == old(self).code_db,
                    self.warnings == old(self).warnings,
                decreases j,
            {
                j = j - 1;
                let ghost before_acc = self.sdb.accounts@;
                let ghost before_al = self.sdb.access_list@;
                let e: RevEntry = self.rev_log[j];
                match e {
                    RevEntry::Balance { address, balance_prev } => {
                        self.sdb.set_balance(&address, balance_prev);
                    },
                    RevEntry::AccessList { tx_id, address, was_warm } => {
                        if !was_warm {
                            self.sdb.remove_account_from_access_list(tx_id, &address);
                        }
                    },
                }
                proof {
                    assert(log0.skip(j as int).drop_first() =~= log0.skip(j as int + 1));
                    assert(log0.skip(j as int)[0] == log0[j as int]);
                }
            }
            self.rev_log.truncate(start);
        }
    }
}

/// The descriptor of the callee frame a CALL enters, decoded from the
/// instruction's stack operands: callee address from operand 1, value from
/// operand 2, call-data window from operands 3 and 4, return-data window
/// from operands 5 and 6. The frame inherits the caller's static flag and
/// persistence, sits one level deeper, and takes the next call identifier
/// and the transaction's next recorded call outcome.
pub open spec fn spec_parse_call(s: State, step: TraceStep) -> Call {
    let stack = step.stack@;
    let cur = s.frames@.last().call;
    let address = addr_of(spec_nth_last(stack, 1));
    Call {
        call_id: s.next_call_id,
        caller_id: cur.call_id,
        caller_address: cur.address,
        address,
        value: spec_nth_last(stack, 2),
        call_data_offset: spec_nth_last(stack, 3).lo as u64,
        call_data_length: spec_nth_last(stack, 4).lo as u64,
        return_data_offset: spec_nth_last(stack, 5).lo as u64,
        return_data_length: spec_nth_last(stack, 6).lo as u64,
        depth: (cur.depth + 1) as u64,
        is_static: cur.is_static,
        is_root: false,
        is_create: false,
        is_persistent: cur.is_persistent,
        is_success: s.call_is_success@[s.calls_made as int],
        code_hash: lookup_account(s.sdb.accounts@, address).code_hash,
        rw_counter_end_of_reversion: 0,
        reversible_write_counter: 0,
        rev_log_start: 0,
        last_callee_id: 0,
        last_callee_return_data_offset: 0,
        last_callee_return_data_length: 0,
    }
}

/// Whether the accounts can carry `value` from `from` to `to`.
pub open spec fn spec_transfer_ok(s: Seq<Account>, from: Word, to: Word, value: Word) -> bool {
    value.as_nat() == 0 || (has_account(s, from) && has_account(s, to) && lookup_account(
        s,
        from,
    ).balance.as_nat() >= value.as_nat() && (from == to || lookup_account(s, to).balance.as_nat()
        + value.as_nat() < crate::word::word_modulus()))
}

/// The error a failing transfer reports: a missing sender or receiver, an
/// insufficient sending balance, or an overflowing receiving balance, in
/// that order of checks.
pub open spec fn spec_transfer_err(s: Seq<Account>, from: Word, to: Word, value: Word) -> Error {
    if !has_account(s, from) {
        Error::AccountNotFound
    } else if lookup_account(s, from).balance.as_nat() < value.as_nat() {
        Error::InsufficientBalance
    } else if !has_account(s, to) {
        Error::AccountNotFound
    } else {
        Error::BalanceOverflow
    }
}

/// Sender balance after a transfer.
pub open spec fn spec_debit_balance(s: Seq<Account>, from: Word, value: Word) -> Word {
    spec_word_sub(lookup_account(s, from).balance, value)
}

/// Receiver balance before the credit is applied: the sender's debited
/// balance when sender and receiver coincide.
pub open spec fn spec_credit_base(s: Seq<Account>, from: Word, to: Word, value: Word) -> Word {
    if from == to {
        spec_debit_balance(s, from, value)
    } else {
        lookup_account(s, to).balance
    }
}

/// Receiver balance after a transfer.
pub open spec fn spec_credit_balance(s: Seq<Account>, from: Word, to: Word, value: Word) -> Word {
    spec_word_add(spec_credit_base(s, from, to, value), value)
}

/// How `handle_return` leaves the state: the top frame popped; when it had
/// failed, every reversible write of its region undone in reverse order and
/// dropped from the log; everything else untouched.
pub open spec fn popped_state_rel(pre: State, post: State) -> bool {
    &&& post.frames@ == pre.frames@.drop_last()
    &&& ({
        let popped = pre.frames@.last().call;
        if popped.is_success {
            &&& post.sdb == pre.sdb
            &&& post.rev_log == pre.rev_log
        } else {
            &&& post.sdb.accounts@ == undo_accounts(
                pre.sdb.accounts@,
                pre.rev_log@.skip(popped.rev_log_start as int),
            )
            &&& post.sdb.access_list@ == undo_al(
                pre.sdb.access_list@,
                pre.rev_log@.skip(popped.rev_log_start as int),
            )
            &&& post.rev_log@ == pre.rev_log@.take(popped.rev_log_start as int)
        }
    })
    &&& post.tx_id == pre.tx_id
    &&& post.next_call_id == pre.next_call_id
    &&& post.calls_made == pre.calls_made
    &&& post.call_is_success == pre.call_is_success
    &&& post.code_db == pre.code_db
    &&& post.warnings == pre.warnings
}

impl State {
    /// Records a reversible write: appends the operation to the step,
    /// applies it to the state database, logs its restore value, and
    /// advances the current frame's reversible-write counter.
    pub fn push_op_reversible(&mut self, step: &mut ExecStep, op: Operation)
        requires
            old(self).wf(),
            old(self).frames@.len() > 0,
            old(self).frames@.last().call.reversible_write_counter < u64::MAX,
            op.reversible,
            op.rw == RW::Write,
            match op.kind {
                OpKind::Account { field, .. } => field == AccountField::Balance,
                OpKind::TxAccessListAccount { .. } => true,
                _ => false,
            },
        ensures
            final(step).bus_ops@ == old(step).bus_ops@.push(op),
            step_meta_eq(*final(step), *old(step)),
            final(self).frames@.len() == old(self).frames@.len(),
            final(self).frames@.drop_last() == old(self).frames@.drop_last(),
            final(self).frames@.last().call == (Call {
                reversible_write_counter: (old(self).frames@.last().call.reversible_write_counter + 1) as u64,
                ..old(self).frames@.last().call
            }),
            final(self).frames@.last().memory == old(self).frames@.last().memory,
            final(self).frames@.last().return_data == old(self).frames@.last().return_data,
            match op.kind {
                OpKind::Account { address, value, value_prev, .. } => {
                    &&& final(self).sdb.accounts@ == set_balance(
                        old(self).sdb.accounts@,
                        address,
                        value,
                    )
                    &&& final(self).sdb.access_list@ == old(self).sdb.access_list@
                    &&& final(self).rev_log@ == old(self).rev_log@.push(
                        RevEntry::Balance { address, balance_prev: value_prev },
                    )
                },
                OpKind::TxAccessListAccount { tx_id, address, is_warm, is_warm_prev } => {
                    &&& final(self).sdb.accounts@ == old(self).sdb.accounts@
                    &&& final(self).sdb.access_list@ == (if is_warm {
                        al_insert(old(self).sdb.access_list@, tx_id, address)
                    } else {
                        al_remove(old(self).sdb.access_list@, tx_id, address)
                    })
                    &&& final(self).rev_log@ == old(self).rev_log@.push(
                        RevEntry::AccessList { tx_id, address, was_warm: is_warm_prev },
                    )
                },
                _ => false,
            },
            final(self).tx_id == old(self).tx_id,
            final(self).next_call_id == old(self).next_call_id,
            final(self).calls_made == old(self).calls_made,
            final(self).call_is_success == old(self).call_is_success,
            final(self).code_db == old(self).code_db,
            final(self).warnings == old(self).warnings,
            final(self).wf(),
    {
        let fr_opt = self.frames.pop();
        let mut fr: CallContext = fr_opt.unwrap();
        fr.call =
        Call { reversible_write_counter: fr.call.reversible_write_counter + 1, ..fr.call };
        self.frames.push(fr);
        proof {
            assert(self.frames@.drop_last() =~= old(self).frames@.drop_last());
        }
        match op.kind {
            OpKind::Account { address, value, value_prev, .. } => {
                self.sdb.set_balance(&address, value);
                self.rev_log.push(RevEntry::Balance { address, balance_prev: value_prev });
            },
            OpKind::TxAccessListAccount { tx_id, address, is_warm, is_warm_prev } => {
                if is_warm {
                    self.sdb.add_account_to_access_list(tx_id, &address);
                } else {
                    self.sdb.remove_account_from_access_list(tx_id, &address);
                }
                self.rev_log.push(
                    RevEntry::AccessList { tx_id, address, was_warm: is_warm_prev },
                );
            },
            _ => {
                proof {
                    assert(false);
                }
            },
        }
        step.push_op(op);
    }

    /// Moves `value` from `from` to `to` as two reversible balance writes,
    /// debit first; a zero value moves nothing and records nothing. Both
    /// accounts must be held by the database, the sender must cover the
    /// value, and the receiving balance must not overflow.
    pub fn transfer(&mut self, step: &mut ExecStep, from: Word, to: Word, value: Word) -> (r:
        Result<(), Error>)
        requires
            old(self).wf(),
            old(self).frames@.len() > 0,
            old(self).frames@.last().call.reversible_write_counter < u64::MAX - 1,
        ensures
            match r {
                Ok(_) => spec_transfer_ok(old(self).sdb.accounts@, from, to, value),
                Err(e) => {
                    &&& !spec_transfer_ok(old(self).sdb.accounts@, from, to, value)
                    &&& value.as_nat() != 0
                    &&& e == spec_transfer_err(old(self).sdb.accounts@, from, to, value)
                    &&& *final(self) == *old(self)
                    &&& *final(step) == *old(step)
                },
            },
            r is Ok && value.as_nat() == 0 ==> *final(self) == *old(self) && *final(step) == *old(step),
            r is Ok && value.as_nat() != 0 ==> {
                let acc0 = old(self).sdb.accounts@;
                let cur0 = old(self).frames@.last().call;
                let debit = spec_debit_balance(acc0, from, value);
                let credit = spec_credit_balance(acc0, from, to, value);
                &&& final(self).sdb.accounts@ == set_balance(
                    set_balance(acc0, from, debit),
                    to,
                    credit,
                )
                &&& final(self).sdb.access_list@ == old(self).sdb.access_list@
                &&& final(self).rev_log@ == old(self).rev_log@.push(
                    RevEntry::Balance {
                        address: from,
                        balance_prev: lookup_account(acc0, from).balance,
                    },
                ).push(
                    RevEntry::Balance {
                        address: to,
                        balance_prev: spec_credit_base(acc0, from, to, value),
                    },
                )
                &&& final(step).bus_ops@ == old(step).bus_ops@.push(
                    balance_write_op(cur0.call_id, from, debit, lookup_account(acc0, from).balance),
                ).push(
                    balance_write_op(
                        cur0.call_id,
                        to,
                        credit,
                        spec_credit_base(acc0, from, to, value),
                    ),
                )
                &&& step_meta_eq(*final(step), *old(step))
                &&& final(self).frames@.len() == old(self).frames@.len()
                &&& final(self).frames@.drop_last() == old(self).frames@.drop_last()
                &&& final(self).frames@.last().call == (Call {
                    reversible_write_counter: (cur0.reversible_write_counter + 2) as u64,
                    ..cur0
                })
                &&& final(self).frames@.last().memory == old(self).frames@.last().memory
                &&& final(self).frames@.last().return_data == old(self).frames@.last().return_data
                &&& final(self).tx_id == old(self).tx_id
                &&& final(self).next_call_id == old(self).next_call_id
                &&& final(self).calls_made == old(self).calls_made
                &&& final(self).call_is_success == old(self).call_is_success
                &&& final(self).code_db == old(self).code_db
                &&& final(self).warnings == old(self).warnings
            },
            final(self).wf(),
    {
        if value.is_zero() {
            return Ok(());
        }
        let cur_id: u64 = self.frames[self.frames.len() - 1].call.call_id;
        let (ffound, facct) = self.sdb.get_account(&from);
        if !ffound {
            return Err(Error::AccountNotFound);
        }
        if !facct.balance.ge(&value) {
            return Err(Error::InsufficientBalance);
        }
        let (tfound, tacct) = self.sdb.get_account(&to);
        if !tfound {
            return Err(Error::AccountNotFound);
        }
        let debit: Word = facct.balance.sub(&value);
        let credit_base: Word = if from == to {
            debit
        } else {
            tacct.balance
        };
        let credit: Word = match credit_base.checked_add(&value) {
            Some(w) => w,
            None => {
                return Err(Error::BalanceOverflow);
            },
        };
        self.push_op_reversible(
            step,
            Operation::new_balance_write(cur_id, from, debit, facct.balance),
        );
        self.push_op_reversible(
            step,
            Operation::new_balance_write(cur_id, to, credit, credit_base),
        );
        Ok(())
    }

    /// Decodes the callee frame a CALL enters from the instruction's seven
    /// stack operands, assigning the next call identifier and consuming the
    /// transaction's next recorded call outcome.
    pub fn parse_call(&mut self, step: &TraceStep) -> (r: Result<Call, Error>)
        requires
            old(self).frames@.len() > 0,
            old(self).next_call_id < u64::MAX,
            old(self).frames@.last().call.depth < u64::MAX,
            step.stack@.len() >= 7 ==> spec_nth_last(step.stack@, 3).spec_fits_u64()
                && spec_nth_last(step.stack@, 4).spec_fits_u64() && spec_nth_last(
                step.stack@,
                5,
            ).spec_fits_u64() && spec_nth_last(step.stack@, 6).spec_fits_u64(),
        ensures
            match r {
                Ok(c) => {
                    &&& step.stack@.len() >= 7
                    &&& old(self).calls_made < old(self).call_is_success@.len()
                    &&& c == spec_parse_call(*old(self), *step)
                    &&& final(self).calls_made == old(self).calls_made + 1
                    &&& final(self).next_call_id == old(self).next_call_id + 1
                },
                Err(e) => {
                    &&& *final(self) == *old(self)
                    &&& (if step.stack@.len() < 7 {
                        e == Error::StackUnderflow
                    } else {
                        e == Error::MissingCallOutcome && old(self).calls_made >= old(self).call_is_success@.len()
                    })
                },
            },
            final(self).tx_id == old(self).tx_id,
            final(self).call_is_success == old(self).call_is_success,
            final(self).frames == old(self).frames,
            final(self).sdb == old(self).sdb,
            final(self).code_db == old(self).code_db,
            final(self).rev_log == old(self).rev_log,
            final(self).warnings == old(self).warnings,
    {
        let n: usize = step.stack.len();
        if n < 7 {
            return Err(Error::StackUnderflow);
        }
        if self.calls_made >= self.call_is_success.len() {
            return Err(Error::MissingCallOutcome);
        }
        let addr_w: Word = step.stack[n - 2];
        let address: Word = addr_w.to_address();
        let value: Word = step.stack[n - 3];
        let cd_off: u64 = step.stack[n - 4].to_u64();
        let cd_len: u64 = step.stack[n - 5].to_u64();
        let rd_off: u64 = step.stack[n - 6].to_u64();
        let rd_len: u64 = step.stack[n - 7].to_u64();
        let cur: Call = self.frames[self.frames.len() - 1].call;
        let is_success: bool = self.call_is_success[self.calls_made];
        let (_, acct) = self.sdb.get_account(&address);
        let id: u64 = self.assign_call_id();
        self.calls_made = self.calls_made + 1;
        Ok(
            Call {
                call_id: id,
                caller_id: cur.call_id,
                caller_address: cur.address,
                address,
                value,
                call_data_offset: cd_off,
                call_data_length: cd_len,
                return_data_offset: rd_off,
                return_data_length: rd_len,
                depth: cur.depth + 1,
                is_static: cur.is_static,
                is_root: false,
                is_create: false,
                is_persistent: cur.is_persistent,
                is_success,
                code_hash: acct.code_hash,
                rw_counter_end_of_reversion: 0,
                reversible_write_counter: 0,
                rev_log_start: 0,
                last_callee_id: 0,
                last_callee_return_data_offset: 0,
                last_callee_return_data_length: 0,
            },
        )
    }

}

/// Whether `address` names a precompiled contract: addresses 1 through 9.
pub open spec fn spec_is_precompiled(a: Word) -> bool {
    1 <= a.as_nat() <= 9
}

/// Whether `address` names a precompiled contract.
pub fn is_precompiled(address: &Word) -> (r: bool)
    ensures
        r == spec_is_precompiled(*address),
{
    address.hi == 0 && 1 <= address.lo && address.lo <= 9
}

} // verus!
