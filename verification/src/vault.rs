//! Vault pools and the token ledger.
//!
//! The vault keeps, per token, the bridge liquidity backing outbound fills
//! and three separately claimable fee pools (base, LP, protocol).  The
//! ledger models the balances the token-transfer collaborator moves: one
//! entry per `(owner, token)` pair.  All accounting is checked `u64`
//! arithmetic; balances are never negative and never wrap.

use vstd::prelude::*;
use crate::errors::BridgeError;
use crate::ids::AccountId;

verus! {

/// Per-token vault accounting: available bridge liquidity and the three
/// claimable fee pools.
#[derive(Clone, Copy, Debug)]
pub struct Pool {
    pub token: AccountId,
    pub liquidity: u64,
    pub base_fees: u64,
    pub lp_fees: u64,
    pub protocol_fees: u64,
}

/// One ledger balance: how much of `token` the identity `owner` holds.
#[derive(Clone, Copy, Debug)]
pub struct AccountEntry {
    pub owner: AccountId,
    pub token: AccountId,
    pub amount: u64,
}

/// Which fee pool a claim draws from.
#[derive(Clone, Copy, Debug, PartialEq, Eq, Structural)]
pub enum FeeType {
    Base,
    Lp,
    Protocol,
}

// ---------------------------------------------------------------- ledger

/// Whether the ledger holds an entry for `(owner, token)`.
pub open spec fn has_entry(s: Seq<AccountEntry>, owner: Seq<u8>, token: Seq<u8>) -> bool {
    exists|i: int| 0 <= i < s.len() && s[i].owner@ == owner && s[i].token@ == token
}

/// The index of the `(owner, token)` entry; meaningful only under
/// [`has_entry`] and [`entries_unique`].
pub open spec fn entry_index(s: Seq<AccountEntry>, owner: Seq<u8>, token: Seq<u8>) -> int {
    choose|i: int| 0 <= i < s.len() && s[i].owner@ == owner && s[i].token@ == token
}

/// One entry per `(owner, token)` pair.
pub open spec fn entries_unique(s: Seq<AccountEntry>) -> bool {
    forall|i: int, j: int|
        0 <= i < j < s.len() ==> !(s[i].owner@ == s[j].owner@ && s[i].token@ == s[j].token@)
}

/// The balance of `(owner, token)`: the entry's amount, or zero without an
/// entry.
pub open spec fn bal_of(s: Seq<AccountEntry>, owner: Seq<u8>, token: Seq<u8>) -> int {
    if has_entry(s, owner, token) {
        s[entry_index(s, owner, token)].amount as int
    } else {
        0
    }
}

/// The entry the index resolves to carries the keys.
pub proof fn lemma_entry_index(s: Seq<AccountEntry>, owner: Seq<u8>, token: Seq<u8>)
    requires
        has_entry(s, owner, token),
    ensures
        0 <= entry_index(s, owner, token) < s.len(),
        s[entry_index(s, owner, token)].owner@ == owner,
        s[entry_index(s, owner, token)].token@ == token,
{
    let i = choose|i: int| 0 <= i < s.len() && s[i].owner@ == owner && s[i].token@ == token;
    assert(0 <= i < s.len() && s[i].owner@ == owner && s[i].token@ == token);
}

/// Under unique keys, any index whose entry carries the keys is the one
/// they resolve to.
pub proof fn lemma_entry_index_unique(s: Seq<AccountEntry>, owner: Seq<u8>, token: Seq<u8>, i: int)
    requires
        entries_unique(s),
        0 <= i < s.len(),
        s[i].owner@ == owner,
        s[i].token@ == token,
    ensures
        has_entry(s, owner, token),
        entry_index(s, owner, token) == i,
{
    assert(has_entry(s, owner, token));
    lemma_entry_index(s, owner, token);
    let j = entry_index(s, owner, token);
    if j < i {
        assert(!(s[j].owner@ == s[i].owner@ && s[j].token@ == s[i].token@));
    } else if i < j {
        assert(!(s[i].owner@ == s[j].owner@ && s[i].token@ == s[j].token@));
    }
}

/// The ledger after `(owner, token)` gains `amt`; meaningful only when the
/// new balance fits in `u64`.
pub open spec fn spec_ledger_credit(
    s: Seq<AccountEntry>,
    owner: AccountId,
    token: AccountId,
    amt: u64,
) -> Seq<AccountEntry> {
    if has_entry(s, owner@, token@) {
        let i = entry_index(s, owner@, token@);
        s.update(
            i,
            AccountEntry {
                owner: s[i].owner,
                token: s[i].token,
                amount: (s[i].amount + amt) as u64,
            },
        )
    } else {
        s.push(AccountEntry { owner, token, amount: amt })
    }
}

/// The ledger after `(owner, token)` loses `amt`; meaningful only when the
/// balance covers it.
pub open spec fn spec_ledger_debit(
    s: Seq<AccountEntry>,
    owner: AccountId,
    token: AccountId,
    amt: u64,
) -> Seq<AccountEntry> {
    let i = entry_index(s, owner@, token@);
    s.update(
        i,
        AccountEntry {
            owner: s[i].owner,
            token: s[i].token,
            amount: (s[i].amount - amt) as u64,
        },
    )
}

/// A credit leaves every other balance alone and raises the target by
/// exactly the credited amount.
pub proof fn lemma_ledger_credit_frame(
    s: Seq<AccountEntry>,
    owner: AccountId,
    token: AccountId,
    amt: u64,
)
    requires
        entries_unique(s),
        bal_of(s, owner@, token@) + amt <= u64::MAX,
    ensures
        entries_unique(spec_ledger_credit(s, owner, token, amt)),
        bal_of(spec_ledger_credit(s, owner, token, amt), owner@, token@) == bal_of(
            s,
            owner@,
            token@,
        ) + amt,
        forall|o: Seq<u8>, t: Seq<u8>|
            !(o == owner@ && t == token@) ==> bal_of(spec_ledger_credit(s, owner, token, amt), o, t)
                == bal_of(s, o, t),
{
    let s2 = spec_ledger_credit(s, owner, token, amt);
    if has_entry(s, owner@, token@) {
        let i = entry_index(s, owner@, token@);
        lemma_entry_index(s, owner@, token@);
        assert(entries_unique(s2));
        lemma_entry_index_unique(s2, owner@, token@, i);
        assert(has_entry(s2, owner@, token@));
        assert forall|o: Seq<u8>, t: Seq<u8>|
            !(o == owner@ && t == token@) implies bal_of(s2, o, t) == bal_of(s, o, t) by {
            lemma_bal_same_entries(s, s2, o, t, i);
        }
    } else {
        let i = s.len() as int;
        assert(s2 == s.push(AccountEntry { owner, token, amount: amt }));
        assert(s2[i].owner@ == owner@ && s2[i].token@ == token@);
        assert forall|a: int, b: int|
            0 <= a < b < s2.len() implies !(s2[a].owner@ == s2[b].owner@ && s2[a].token@
            == s2[b].token@) by {
            if b < i {
                assert(!(s[a].owner@ == s[b].owner@ && s[a].token@ == s[b].token@));
            } else {
                assert(b == i);
                if s2[a].owner@ == owner@ && s2[a].token@ == token@ {
                    assert(has_entry(s, owner@, token@));
                }
            }
        }
        lemma_entry_index_unique(s2, owner@, token@, i);
        assert(has_entry(s2, owner@, token@));
        assert forall|o: Seq<u8>, t: Seq<u8>|
            !(o == owner@ && t == token@) implies bal_of(s2, o, t) == bal_of(s, o, t) by {
            if has_entry(s, o, t) {
                let k = entry_index(s, o, t);
                lemma_entry_index(s, o, t);
                lemma_entry_index_unique(s2, o, t, k);
            } else {
                if has_entry(s2, o, t) {
                    let k = entry_index(s2, o, t);
                    lemma_entry_index(s2, o, t);
                    if k < i {
                        assert(s2[k] == s[k]);
                        assert(has_entry(s, o, t));
                    } else {
                        assert(k == i);
                    }
                }
            }
        }
    }
}

/// Two ledgers equal except at index `i` (whose keys are unchanged) agree
/// on every balance other than that entry's keys.
proof fn lemma_bal_same_entries(
    s: Seq<AccountEntry>,
    s2: Seq<AccountEntry>,
    o: Seq<u8>,
    t: Seq<u8>,
    i: int,
)
    requires
        entries_unique(s),
        entries_unique(s2),
        s.len() == s2.len(),
        0 <= i < s.len(),
        s2[i].owner@ == s[i].owner@,
        s2[i].token@ == s[i].token@,
        forall|j: int| 0 <= j < s.len() && j != i ==> s2[j] == s[j],
        !(s[i].owner@ == o && s[i].token@ == t),
    ensures
        bal_of(s2, o, t) == bal_of(s, o, t),
{
    if has_entry(s, o, t) {
        let k = entry_index(s, o, t);
        lemma_entry_index(s, o, t);
        assert(k != i);
        assert(s2[k] == s[k]);
        lemma_entry_index_unique(s2, o, t, k);
    } else {
        if has_entry(s2, o, t) {
            let k = entry_index(s2, o, t);
            lemma_entry_index(s2, o, t);
            assert(k != i);
            assert(s[k] == s2[k]);
            assert(has_entry(s, o, t));
        }
    }
}

/// A debit leaves every other balance alone and lowers the target by
/// exactly the debited amount.
pub proof fn lemma_ledger_debit_frame(
    s: Seq<AccountEntry>,
    owner: AccountId,
    token: AccountId,
    amt: u64,
)
    requires
        entries_unique(s),
        has_entry(s, owner@, token@),
        bal_of(s, owner@, token@) >= amt,
    ensures
        entries_unique(spec_ledger_debit(s, owner, token, amt)),
        bal_of(spec_ledger_debit(s, owner, token, amt), owner@, token@) == bal_of(
            s,
            owner@,
            token@,
        ) - amt,
        forall|o: Seq<u8>, t: Seq<u8>|
            !(o == owner@ && t == token@) ==> bal_of(spec_ledger_debit(s, owner, token, amt), o, t)
                == bal_of(s, o, t),
{
    let s2 = spec_ledger_debit(s, owner, token, amt);
    let i = entry_index(s, owner@, token@);
    lemma_entry_index(s, owner@, token@);
    assert(entries_unique(s2));
    lemma_entry_index_unique(s2, owner@, token@, i);
    assert(has_entry(s2, owner@, token@));
    assert forall|o: Seq<u8>, t: Seq<u8>|
        !(o == owner@ && t == token@) implies bal_of(s2, o, t) == bal_of(s, o, t) by {
        lemma_bal_same_entries(s, s2, o, t, i);
    }
}

/// Finds the ledger entry of `(owner, token)`, if one exists.
pub fn find_entry(s: &Vec<AccountEntry>, owner: &AccountId, token: &AccountId) -> (r: Option<
    usize,
>)
    ensures
        match r {
            Some(i) => i < s@.len() && s@[i as int].owner@ == owner@ && s@[i as int].token@
                == token@,
            None => !has_entry(s@, owner@, token@),
        },
{
    let mut i: usize = 0;
    while i < s.len()
        invariant
            0 <= i <= s@.len(),
            forall|j: int|
                0 <= j < i ==> !(s@[j].owner@ == owner@ && s@[j].token@ == token@),
        decreases s@.len() - i,
    {
        if crate::ids::id_eq(&s[i].owner, owner) && crate::ids::id_eq(&s[i].token, token) {
            return Some(i);
        }
        i += 1;
    }
    None
}

/// Reads the balance of `(owner, token)`.
pub fn ledger_balance(s: &Vec<AccountEntry>, owner: &AccountId, token: &AccountId) -> (r: u64)
    requires
        entries_unique(s@),
    ensures
        r as int == bal_of(s@, owner@, token@),
{
    match find_entry(s, owner, token) {
        Some(i) => {
            proof {
                lemma_entry_index_unique(s@, owner@, token@, i as int);
            }
            s[i].amount
        },
        None => 0,
    }
}

/// Credits `amt` of `token` to `owner`, creating the entry if needed.
/// Fails only when the new balance would not fit in `u64`.
pub fn ledger_credit(
    s: &mut Vec<AccountEntry>,
    owner: &AccountId,
    token: &AccountId,
    amt: u64,
) -> (r: Result<(), BridgeError>)
    requires
        entries_unique(old(s)@),
    ensures
        r is Ok <==> bal_of(old(s)@, owner@, token@) + amt <= u64::MAX,
        r is Ok ==> final(s)@ == spec_ledger_credit(old(s)@, *owner, *token, amt),
        r is Err ==> *final(s) == *old(s) && r == Err::<(), BridgeError>(
            BridgeError::ArithmeticOverflow,
        ),
        entries_unique(final(s)@),
{
    match find_entry(s, owner, token) {
        Some(i) => {
            proof {
                lemma_entry_index_unique(s@, owner@, token@, i as int);
                assert(has_entry(s@, owner@, token@));
            }
            let e = s[i];
            if e.amount > u64::MAX - amt {
                return Err(BridgeError::ArithmeticOverflow);
            }
            proof {
                lemma_ledger_credit_frame(s@, *owner, *token, amt);
            }
            s[i] = AccountEntry { owner: e.owner, token: e.token, amount: e.amount + amt };
            Ok(())
        },
        None => {
            proof {
                lemma_ledger_credit_frame(s@, *owner, *token, amt);
            }
            s.push(AccountEntry { owner: *owner, token: *token, amount: amt });
            Ok(())
        },
    }
}

/// Debits `amt` of `token` from `owner`.  Fails exactly when the balance
/// does not cover the amount, as the transfer collaborator would.
pub fn ledger_debit(
    s: &mut Vec<AccountEntry>,
    owner: &AccountId,
    token: &AccountId,
    amt: u64,
) -> (r: Result<(), BridgeError>)
    requires
        entries_unique(old(s)@),
    ensures
        r is Ok <==> has_entry(old(s)@, owner@, token@) && bal_of(old(s)@, owner@, token@) >= amt,
        r is Ok ==> final(s)@ == spec_ledger_debit(old(s)@, *owner, *token, amt),
        r is Err ==> *final(s) == *old(s) && r == Err::<(), BridgeError>(
            BridgeError::TransferFailed,
        ),
        entries_unique(final(s)@),
{
    match find_entry(s, owner, token) {
        Some(i) => {
            proof {
                lemma_entry_index_unique(s@, owner@, token@, i as int);
                assert(has_entry(s@, owner@, token@));
            }
            let e = s[i];
            if e.amount < amt {
                return Err(BridgeError::TransferFailed);
            }
            proof {
                lemma_ledger_debit_frame(s@, *owner, *token, amt);
            }
            s[i] = AccountEntry { owner: e.owner, token: e.token, amount: e.amount - amt };
            Ok(())
        },
        None => Err(BridgeError::TransferFailed),
    }
}

// ---------------------------------------------------------------- pools

/// Whether a vault pool for the token exists.
pub open spec fn has_pool(s: Seq<Pool>, token: Seq<u8>) -> bool {
    exists|i: int| 0 <= i < s.len() && s[i].token@ == token
}

/// The index of the token's pool; meaningful only under [`has_pool`] and
/// [`pools_unique`].
pub open spec fn pool_index(s: Seq<Pool>, token: Seq<u8>) -> int {
    choose|i: int| 0 <= i < s.len() && s[i].token@ == token
}

/// One pool per token.
pub open spec fn pools_unique(s: Seq<Pool>) -> bool {
    forall|i: int, j: int| 0 <= i < j < s.len() ==> s[i].token@ != s[j].token@
}

/// The token's pool, or an all-zero pool when none exists yet.
pub open spec fn pool_of(s: Seq<Pool>, token: Seq<u8>) -> Pool
    recommends
        has_pool(s, token),
{
    s[pool_index(s, token)]
}

/// The bridge liquidity held for a token.
pub open spec fn liquidity_of(s: Seq<Pool>, token: Seq<u8>) -> int {
    if has_pool(s, token) {
        pool_of(s, token).liquidity as int
    } else {
        0
    }
}

/// The claimable balance of one fee pool of a token.
pub open spec fn fee_pool_of(s: Seq<Pool>, token: Seq<u8>, ft: FeeType) -> int {
    if has_pool(s, token) {
        match ft {
            FeeType::Base => pool_of(s, token).base_fees as int,
            FeeType::Lp => pool_of(s, token).lp_fees as int,
            FeeType::Protocol => pool_of(s, token).protocol_fees as int,
        }
    } else {
        0
    }
}

/// Everything the vault holds of a token: liquidity plus all fee pools.
pub open spec fn vault_total(s: Seq<Pool>, token: Seq<u8>) -> int {
    if has_pool(s, token) {
        let p = pool_of(s, token);
        p.liquidity + p.base_fees + p.lp_fees + p.protocol_fees
    } else {
        0
    }
}

/// The pool the index resolves to carries the token.
pub proof fn lemma_pool_index(s: Seq<Pool>, token: Seq<u8>)
    requires
        has_pool(s, token),
    ensures
        0 <= pool_index(s, token) < s.len(),
        s[pool_index(s, token)].token@ == token,
{
    let i = choose|i: int| 0 <= i < s.len() && s[i].token@ == token;
    assert(0 <= i < s.len() && s[i].token@ == token);
}

/// Under unique tokens, any index whose pool carries the token is the one
/// it resolves to.
pub proof fn lemma_pool_index_unique(s: Seq<Pool>, token: Seq<u8>, i: int)
    requires
        pools_unique(s),
        0 <= i < s.len(),
        s[i].token@ == token,
    ensures
        has_pool(s, token),
        pool_index(s, token) == i,
{
    assert(has_pool(s, token));
    lemma_pool_index(s, token);
    let j = pool_index(s, token);
    if j < i {
        assert(s[j].token@ != s[i].token@);
    } else if i < j {
        assert(s[i].token@ != s[j].token@);
    }
}

/// Two pool lists equal except at index `i` (same token there) agree on
/// every other token's pool.
pub proof fn lemma_pool_same_others(s: Seq<Pool>, s2: Seq<Pool>, t: Seq<u8>, i: int)
    requires
        pools_unique(s),
        pools_unique(s2),
        s.len() == s2.len(),
        0 <= i < s.len(),
        s2[i].token@ == s[i].token@,
        forall|j: int| 0 <= j < s.len() && j != i ==> s2[j] == s[j],
        s[i].token@ != t,
    ensures
        liquidity_of(s2, t) == liquidity_of(s, t),
        forall|ft: FeeType| fee_pool_of(s2, t, ft) == fee_pool_of(s, t, ft),
        vault_total(s2, t) == vault_total(s, t),
{
    if has_pool(s, t) {
        let k = pool_index(s, t);
        lemma_pool_index(s, t);
        assert(k != i);
        assert(s2[k] == s[k]);
        lemma_pool_index_unique(s2, t, k);
    } else {
        if has_pool(s2, t) {
            let k = pool_index(s2, t);
            lemma_pool_index(s2, t);
            assert(k != i);
            assert(s[k] == s2[k]);
            assert(has_pool(s, t));
        }
    }
}

/// Whether depositing the three additions into the token's pool would
/// leave the `u64` range.
pub open spec fn pool_deposit_overflows(
    s: Seq<Pool>,
    token: Seq<u8>,
    liq_add: u64,
    base_add: u64,
    prot_add: u64,
) -> bool {
    has_pool(s, token) && (pool_of(s, token).liquidity + liq_add > u64::MAX || pool_of(
        s,
        token,
    ).base_fees + base_add > u64::MAX || pool_of(s, token).protocol_fees + prot_add > u64::MAX)
}

/// The pools after the token's pool gains liquidity and base/protocol fee
/// shares, created on first use; meaningful only without overflow.
pub open spec fn spec_pool_deposit(
    s: Seq<Pool>,
    token: AccountId,
    liq_add: u64,
    base_add: u64,
    prot_add: u64,
) -> Seq<Pool> {
    if has_pool(s, token@) {
        let i = pool_index(s, token@);
        s.update(
            i,
            Pool {
                token: s[i].token,
                liquidity: (s[i].liquidity + liq_add) as u64,
                base_fees: (s[i].base_fees + base_add) as u64,
                lp_fees: s[i].lp_fees,
                protocol_fees: (s[i].protocol_fees + prot_add) as u64,
            },
        )
    } else {
        s.push(
            Pool {
                token,
                liquidity: liq_add,
                base_fees: base_add,
                lp_fees: 0,
                protocol_fees: prot_add,
            },
        )
    }
}

/// The pools after the token's pool loses the four subtractions;
/// meaningful only when the pool exists and covers them.
pub open spec fn spec_pool_sub(
    s: Seq<Pool>,
    token: Seq<u8>,
    liq_sub: u64,
    base_sub: u64,
    lp_sub: u64,
    prot_sub: u64,
) -> Seq<Pool> {
    let i = pool_index(s, token);
    s.update(
        i,
        Pool {
            token: s[i].token,
            liquidity: (s[i].liquidity - liq_sub) as u64,
            base_fees: (s[i].base_fees - base_sub) as u64,
            lp_fees: (s[i].lp_fees - lp_sub) as u64,
            protocol_fees: (s[i].protocol_fees - prot_sub) as u64,
        },
    )
}

/// A deposit raises exactly the target pool's fields and leaves every
/// other token's pool alone.
pub proof fn lemma_pool_deposit_frame(
    s: Seq<Pool>,
    token: AccountId,
    liq_add: u64,
    base_add: u64,
    prot_add: u64,
)
    requires
        pools_unique(s),
        !pool_deposit_overflows(s, token@, liq_add, base_add, prot_add),
    ensures
        pools_unique(spec_pool_deposit(s, token, liq_add, base_add, prot_add)),
        liquidity_of(spec_pool_deposit(s, token, liq_add, base_add, prot_add), token@)
            == liquidity_of(s, token@) + liq_add,
        fee_pool_of(spec_pool_deposit(s, token, liq_add, base_add, prot_add), token@, FeeType::Base)
            == fee_pool_of(s, token@, FeeType::Base) + base_add,
        fee_pool_of(spec_pool_deposit(s, token, liq_add, base_add, prot_add), token@, FeeType::Lp)
            == fee_pool_of(s, token@, FeeType::Lp),
        fee_pool_of(
            spec_pool_deposit(s, token, liq_add, base_add, prot_add),
            token@,
            FeeType::Protocol,
        ) == fee_pool_of(s, token@, FeeType::Protocol) + prot_add,
        vault_total(spec_pool_deposit(s, token, liq_add, base_add, prot_add), token@)
            == vault_total(s, token@) + liq_add + base_add + prot_add,
        forall|t: Seq<u8>|
            t != token@ ==> liquidity_of(spec_pool_deposit(s, token, liq_add, base_add, prot_add), t)
                == liquidity_of(s, t) && vault_total(
                spec_pool_deposit(s, token, liq_add, base_add, prot_add),
                t,
            ) == vault_total(s, t) && (forall|ft: FeeType|
                fee_pool_of(spec_pool_deposit(s, token, liq_add, base_add, prot_add), t, ft)
                    == fee_pool_of(s, t, ft)),
{
    let s2 = spec_pool_deposit(s, token, liq_add, base_add, prot_add);
    if has_pool(s, token@) {
        let i = pool_index(s, token@);
        lemma_pool_index(s, token@);
        assert(pools_unique(s2));
        lemma_pool_index_unique(s2, token@, i);
        assert forall|t: Seq<u8>| t != token@ implies liquidity_of(s2, t) == liquidity_of(s, t)
            && vault_total(s2, t) == vault_total(s, t) && (forall|ft: FeeType|
            fee_pool_of(s2, t, ft) == fee_pool_of(s, t, ft)) by {
            lemma_pool_same_others(s, s2, t, i);
        }
    } else {
        let i = s.len() as int;
        assert(s2 == s.push(
            Pool {
                token,
                liquidity: liq_add,
                base_fees: base_add,
                lp_fees: 0,
                protocol_fees: prot_add,
            },
        ));
        assert(s2[i].token@ == token@);
        assert forall|a: int, b: int| 0 <= a < b < s2.len() implies s2[a].token@ != s2[b].token@ by {
            if b < i {
                assert(s[a].token@ != s[b].token@);
            } else {
                if s2[a].token@ == token@ {
                    assert(has_pool(s, token@));
                }
            }
        }
        lemma_pool_index_unique(s2, token@, i);
        assert forall|t: Seq<u8>| t != token@ implies liquidity_of(s2, t) == liquidity_of(s, t)
            && vault_total(s2, t) == vault_total(s, t) && (forall|ft: FeeType|
            fee_pool_of(s2, t, ft) == fee_pool_of(s, t, ft)) by {
            if has_pool(s, t) {
                let k = pool_index(s, t);
                lemma_pool_index(s, t);
                assert(s2[k] == s[k]);
                lemma_pool_index_unique(s2, t, k);
            } else {
                if has_pool(s2, t) {
                    let k = pool_index(s2, t);
                    lemma_pool_index(s2, t);
                    if k < i {
                        assert(s2[k] == s[k]);
                        assert(has_pool(s, t));
                    } else {
                        assert(k == i);
                    }
                }
            }
        }
    }
}

/// A subtraction lowers exactly the target pool's fields and leaves every
/// other token's pool alone.
pub proof fn lemma_pool_sub_frame(
    s: Seq<Pool>,
    token: Seq<u8>,
    liq_sub: u64,
    base_sub: u64,
    lp_sub: u64,
    prot_sub: u64,
)
    requires
        pools_unique(s),
        has_pool(s, token),
        pool_of(s, token).liquidity >= liq_sub,
        pool_of(s, token).base_fees >= base_sub,
        pool_of(s, token).lp_fees >= lp_sub,
        pool_of(s, token).protocol_fees >= prot_sub,
    ensures
        pools_unique(spec_pool_sub(s, token, liq_sub, base_sub, lp_sub, prot_sub)),
        liquidity_of(spec_pool_sub(s, token, liq_sub, base_sub, lp_sub, prot_sub), token)
            == liquidity_of(s, token) - liq_sub,
        fee_pool_of(spec_pool_sub(s, token, liq_sub, base_sub, lp_sub, prot_sub), token, FeeType::Base)
            == fee_pool_of(s, token, FeeType::Base) - base_sub,
        fee_pool_of(spec_pool_sub(s, token, liq_sub, base_sub, lp_sub, prot_sub), token, FeeType::Lp)
            == fee_pool_of(s, token, FeeType::Lp) - lp_sub,
        fee_pool_of(
            spec_pool_sub(s, token, liq_sub, base_sub, lp_sub, prot_sub),
            token,
            FeeType::Protocol,
        ) == fee_pool_of(s, token, FeeType::Protocol) - prot_sub,
        vault_total(spec_pool_sub(s, token, liq_sub, base_sub, lp_sub, prot_sub), token)
            == vault_total(s, token) - liq_sub - base_sub - lp_sub - prot_sub,
        forall|t: Seq<u8>|
            t != token ==> liquidity_of(spec_pool_sub(s, token, liq_sub, base_sub, lp_sub, prot_sub), t)
                == liquidity_of(s, t) && vault_total(
                spec_pool_sub(s, token, liq_sub, base_sub, lp_sub, prot_sub),
                t,
            ) == vault_total(s, t) && (forall|ft: FeeType|
                fee_pool_of(spec_pool_sub(s, token, liq_sub, base_sub, lp_sub, prot_sub), t, ft)
                    == fee_pool_of(s, t, ft)),
{
    let s2 = spec_pool_sub(s, token, liq_sub, base_sub, lp_sub, prot_sub);
    let i = pool_index(s, token);
    lemma_pool_index(s, token);
    assert(pools_unique(s2));
    lemma_pool_index_unique(s2, token, i);
    assert forall|t: Seq<u8>| t != token implies liquidity_of(s2, t) == liquidity_of(s, t)
        && vault_total(s2, t) == vault_total(s, t) && (forall|ft: FeeType|
        fee_pool_of(s2, t, ft) == fee_pool_of(s, t, ft)) by {
        lemma_pool_same_others(s, s2, t, i);
    }
}

/// Finds the pool of a token, if one exists.
pub fn find_pool(s: &Vec<Pool>, token: &AccountId) -> (r: Option<usize>)
    ensures
        match r {
            Some(i) => i < s@.len() && s@[i as int].token@ == token@,
            None => !has_pool(s@, token@),
        },
{
    let mut i: usize = 0;
    while i < s.len()
        invariant
            0 <= i <= s@.len(),
            forall|j: int| 0 <= j < i ==> s@[j].token@ != token@,
        decreases s@.len() - i,
    {
        if crate::ids::id_eq(&s[i].token, token) {
            return Some(i);
        }
        i += 1;
    }
    None
}

} // verus!
