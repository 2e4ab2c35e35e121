//! The account ledger: per-account balances keyed by denomination, and the
//! per-denomination total supplies, together with the specification functions
//! the migration contracts are stated over.

use vstd::prelude::*;

use crate::types::Address;
use crate::types::Denomination;

verus! {

/// One account: its address and its balances, one entry per denomination.
pub struct Account {
    pub address: Address,
    pub balances: Vec<(Denomination, u128)>,
}

/// The mathematical value of an [`Account`].
pub struct AccountView {
    pub address: Address,
    pub balances: Seq<(Denomination, u128)>,
}

impl View for Account {
    type V = AccountView;

    open spec fn view(&self) -> AccountView {
        AccountView { address: self.address, balances: self.balances@ }
    }
}

/// The ledger: every account, and the recorded total supply of every
/// denomination.
pub struct Ledger {
    pub accounts: Vec<Account>,
    pub total_supplies: Vec<(Denomination, u128)>,
}

/// The mathematical value of a [`Ledger`].
pub struct LedgerView {
    pub accounts: Seq<AccountView>,
    pub total_supplies: Seq<(Denomination, u128)>,
}

/// The mathematical values of a list of accounts.
pub open spec fn views_of(accounts: Seq<Account>) -> Seq<AccountView> {
    accounts.map_values(|a: Account| a@)
}

impl View for Ledger {
    type V = LedgerView;

    open spec fn view(&self) -> LedgerView {
        LedgerView { accounts: views_of(self.accounts@), total_supplies: self.total_supplies@ }
    }
}

/// The balance recorded for denomination `d` in a list of entries: the value
/// of the first entry for `d`, or zero when there is none.
pub open spec fn balance_in(entries: Seq<(Denomination, u128)>, d: Denomination) -> u128
    decreases entries.len(),
{
    if entries.len() == 0 {
        0
    } else if entries[0].0 == d {
        entries[0].1
    } else {
        balance_in(entries.drop_first(), d)
    }
}

/// Whether some entry is recorded for denomination `d`.
pub open spec fn has_denom(entries: Seq<(Denomination, u128)>, d: Denomination) -> bool {
    exists|i: int| 0 <= i < entries.len() && entries[i].0 == d
}

/// No denomination occurs twice in the entry list.
pub open spec fn denoms_unique(entries: Seq<(Denomination, u128)>) -> bool {
    forall|i: int, j: int|
        0 <= i < j < entries.len() ==> entries[i].0 != entries[j].0
}

/// Well-formedness of one account: its balance entries are keyed uniquely.
pub open spec fn account_wf(a: AccountView) -> bool {
    denoms_unique(a.balances)
}

/// Well-formedness of the ledger: addresses are unique, every account is
/// well formed, and the total-supply table is keyed uniquely.
pub open spec fn ledger_wf(lv: LedgerView) -> bool {
    &&& forall|i: int, j: int|
        0 <= i < j < lv.accounts.len() ==> lv.accounts[i].address != lv.accounts[j].address
    &&& forall|i: int| 0 <= i < lv.accounts.len() ==> account_wf(#[trigger] lv.accounts[i])
    &&& denoms_unique(lv.total_supplies)
}

/// The balance of the account at `addr` in denomination `d`: the balance of
/// the first account with that address, or zero when there is none.
pub open spec fn balance_of(accounts: Seq<AccountView>, addr: Address, d: Denomination) -> u128
    decreases accounts.len(),
{
    if accounts.len() == 0 {
        0
    } else if accounts[0].address == addr {
        balance_in(accounts[0].balances, d)
    } else {
        balance_of(accounts.drop_first(), addr, d)
    }
}

/// Whether some account is recorded for `addr`.
pub open spec fn has_account(accounts: Seq<AccountView>, addr: Address) -> bool {
    exists|i: int| 0 <= i < accounts.len() && accounts[i].address == addr
}

/// The recorded total supply of denomination `d`.
pub open spec fn total_supply_of(lv: LedgerView, d: Denomination) -> u128 {
    balance_in(lv.total_supplies, d)
}

/// The sum of all account balances in denomination `d`.
pub open spec fn sum_denom(accounts: Seq<AccountView>, d: Denomination) -> nat
    decreases accounts.len(),
{
    if accounts.len() == 0 {
        0
    } else {
        balance_in(accounts[0].balances, d) as nat + sum_denom(accounts.drop_first(), d)
    }
}

/// The global supply invariant: for every denomination, the recorded total
/// supply equals the sum of all account balances in it.
pub open spec fn consistent(lv: LedgerView) -> bool {
    forall|d: Denomination| #[trigger] total_supply_of(lv, d) == sum_denom(lv.accounts, d)
}

/// A denomination with no entry has balance zero.
pub proof fn lemma_balance_in_absent(entries: Seq<(Denomination, u128)>, d: Denomination)
    requires
        !has_denom(entries, d),
    ensures
        balance_in(entries, d) == 0,
    decreases entries.len(),
{
    if entries.len() > 0 {
        assert(entries[0].0 != d);
        assert(forall|i: int|
            0 <= i < entries.drop_first().len() ==> entries.drop_first()[i] == entries[i + 1]);
        lemma_balance_in_absent(entries.drop_first(), d);
    }
}

/// Under unique keys, the balance for `d` is the value of any entry for `d`.
pub proof fn lemma_balance_in_index(entries: Seq<(Denomination, u128)>, d: Denomination, i: int)
    requires
        denoms_unique(entries),
        0 <= i < entries.len(),
        entries[i].0 == d,
    ensures
        balance_in(entries, d) == entries[i].1,
    decreases entries.len(),
{
    if i > 0 {
        assert(entries[0].0 != d);
        assert(denoms_unique(entries.drop_first())) by {
            assert(forall|p: int, q: int|
                0 <= p < q < entries.drop_first().len()
                    ==> (#[trigger] entries.drop_first()[p]).0
                        != (#[trigger] entries.drop_first()[q]).0) by {
                assert(forall|p: int|
                    0 <= p < entries.drop_first().len()
                        ==> #[trigger] entries.drop_first()[p] == entries[p + 1]);
            }
        }
        assert(entries.drop_first()[i - 1] == entries[i]);
        lemma_balance_in_index(entries.drop_first(), d, i - 1);
    }
}

/// The balance for `d` is the value of the first entry for `d`.
pub proof fn lemma_balance_in_first_match(
    entries: Seq<(Denomination, u128)>,
    d: Denomination,
    i: int,
)
    requires
        0 <= i < entries.len(),
        entries[i].0 == d,
        !has_denom(entries.take(i), d),
    ensures
        balance_in(entries, d) == entries[i].1,
    decreases entries.len(),
{
    if i > 0 {
        assert(entries.take(i)[0] == entries[0]);
        assert(entries[0].0 != d);
        assert(entries.drop_first()[i - 1] == entries[i]);
        assert(forall|m: int|
            0 <= m < i - 1 ==> #[trigger] entries.drop_first().take(i - 1)[m]
                == entries.take(i)[m + 1]);
        assert(!has_denom(entries.drop_first().take(i - 1), d));
        lemma_balance_in_first_match(entries.drop_first(), d, i - 1);
    }
}

/// Replacing the first entry for a denomination changes its balance and no
/// other.
pub proof fn lemma_balance_in_update(
    entries: Seq<(Denomination, u128)>,
    i: int,
    v: (Denomination, u128),
)
    requires
        0 <= i < entries.len(),
        entries[i].0 == v.0,
        !has_denom(entries.take(i), v.0),
    ensures
        balance_in(entries.update(i, v), v.0) == v.1,
        forall|d: Denomination|
            d != v.0 ==> #[trigger] balance_in(entries.update(i, v), d) == balance_in(entries, d),
    decreases entries.len(),
{
    if i == 0 {
        assert(entries.update(0, v)[0] == v);
        assert(entries.update(0, v).drop_first() =~= entries.drop_first());
        assert forall|d: Denomination|
            d != v.0 implies #[trigger] balance_in(entries.update(i, v), d) == balance_in(
            entries,
            d,
        ) by {
            assert(balance_in(entries.update(i, v), d) == balance_in(entries.drop_first(), d));
            assert(balance_in(entries, d) == balance_in(entries.drop_first(), d));
        }
    } else {
        assert(entries.take(i)[0] == entries[0]);
        assert(entries[0].0 != v.0);
        assert(entries.update(i, v)[0] == entries[0]);
        assert(entries.update(i, v).drop_first() =~= entries.drop_first().update(i - 1, v));
        assert(entries.drop_first()[i - 1] == entries[i]);
        assert(forall|m: int|
            0 <= m < i - 1 ==> #[trigger] entries.drop_first().take(i - 1)[m]
                == entries.take(i)[m + 1]);
        assert(!has_denom(entries.drop_first().take(i - 1), v.0));
        lemma_balance_in_update(entries.drop_first(), i - 1, v);
        assert(balance_in(entries.update(i, v), v.0) == balance_in(
            entries.drop_first().update(i - 1, v),
            v.0,
        ));
        assert forall|d: Denomination|
            d != v.0 implies #[trigger] balance_in(entries.update(i, v), d) == balance_in(
            entries,
            d,
        ) by {
            if entries[0].0 == d {
                assert(balance_in(entries.update(i, v), d) == entries[0].1);
                assert(balance_in(entries, d) == entries[0].1);
            } else {
                assert(balance_in(entries.update(i, v), d) == balance_in(
                    entries.drop_first().update(i - 1, v),
                    d,
                ));
                assert(balance_in(entries, d) == balance_in(entries.drop_first(), d));
            }
        }
    }
}

/// Find the first entry recorded for denomination `d`.
pub fn find_denom_index(entries: &Vec<(Denomination, u128)>, d: Denomination) -> (r: Option<
    usize,
>)
    ensures
        match r {
            Some(i) => i < entries@.len() && entries@[i as int].0 == d && !has_denom(
                entries@.take(i as int),
                d,
            ),
            None => !has_denom(entries@, d),
        },
{
    let mut i: usize = 0;
    while i < entries.len()
        invariant
            i <= entries@.len(),
            !has_denom(entries@.take(i as int), d),
        decreases entries@.len() - i,
    {
        if entries[i].0 == d {
            return Some(i);
        }
        proof {
            assert(forall|m: int|
                0 <= m < i + 1 ==> #[trigger] entries@.take(i + 1)[m] == entries@.take(i as int)
                    .push(entries@[i as int])[m]);
            assert(entries@.take(i + 1) =~= entries@.take(i as int).push(entries@[i as int]));
        }
        i += 1;
    }
    proof {
        assert(entries@.take(i as int) =~= entries@);
    }
    None
}

/// Look up the balance recorded for denomination `d`, zero when absent.
pub fn lookup_balance(entries: &Vec<(Denomination, u128)>, d: Denomination) -> (r: u128)
    ensures
        r == balance_in(entries@, d),
{
    match find_denom_index(entries, d) {
        Some(i) => {
            proof {
                lemma_balance_in_first_match(entries@, d, i as int);
            }
            entries[i].1
        },
        None => {
            proof {
                lemma_balance_in_absent(entries@, d);
            }
            0
        },
    }
}

/// Copy a list of balance entries.
pub fn copy_entries(entries: &Vec<(Denomination, u128)>) -> (r: Vec<(Denomination, u128)>)
    ensures
        r@ == entries@,
{
    let mut r: Vec<(Denomination, u128)> = Vec::new();
    let mut i: usize = 0;
    while i < entries.len()
        invariant
            i <= entries@.len(),
            r@ == entries@.take(i as int),
        decreases entries@.len() - i,
    {
        r.push(entries[i]);
        proof {
            assert(entries@.take(i + 1) =~= entries@.take(i as int).push(entries@[i as int]));
        }
        i += 1;
    }
    proof {
        assert(entries@.take(i as int) =~= entries@);
    }
    r
}

/// Sum every account's balance in denomination `d`, or report that the sum
/// does not fit the balance width.
pub fn sum_balances(accounts: &Vec<Account>, d: Denomination) -> (r: Option<u128>)
    ensures
        r is Some <==> sum_denom(views_of(accounts@), d) <= u128::MAX,
        r is Some ==> r->Some_0 == sum_denom(views_of(accounts@), d),
{
    let ghost avs = views_of(accounts@);
    let mut total: u128 = 0;
    let mut i: usize = 0;
    while i < accounts.len()
        invariant
            i <= accounts@.len(),
            avs == views_of(accounts@),
            total == sum_denom(avs.take(i as int), d),
        decreases accounts@.len() - i,
    {
        let b = lookup_balance(&accounts[i].balances, d);
        proof {
            assert(avs[i as int] == accounts@[i as int]@);
            lemma_sum_denom_take_succ(avs, d, i as int);
        }
        total = match total.checked_add(b) {
            Some(t) => t,
            None => {
                proof {
                    lemma_sum_denom_take_le(avs, d, i as int + 1);
                }
                return None;
            },
        };
        i += 1;
    }
    proof {
        assert(avs.take(i as int) =~= avs);
    }
    Some(total)
}

/// The balance entries of the account at `addr`: those of the first account
/// with that address, or none when there is no such account.
pub open spec fn balances_of(accounts: Seq<AccountView>, addr: Address) -> Seq<
    (Denomination, u128),
>
    decreases accounts.len(),
{
    if accounts.len() == 0 {
        Seq::empty()
    } else if accounts[0].address == addr {
        accounts[0].balances
    } else {
        balances_of(accounts.drop_first(), addr)
    }
}

/// The account at `addr` is the first one with that address, and every
/// balance read for that address reads its entries.
pub proof fn lemma_first_account(accounts: Seq<AccountView>, addr: Address, i: int)
    requires
        0 <= i < accounts.len(),
        accounts[i].address == addr,
        forall|m: int| 0 <= m < i ==> (#[trigger] accounts[m]).address != addr,
    ensures
        balances_of(accounts, addr) == accounts[i].balances,
        forall|d: Denomination|
            #[trigger] balance_of(accounts, addr, d) == balance_in(accounts[i].balances, d),
    decreases accounts.len(),
{
    if i > 0 {
        assert(accounts[0].address != addr);
        assert(accounts.drop_first()[i - 1] == accounts[i]);
        assert(forall|m: int|
            0 <= m < i - 1 ==> #[trigger] accounts.drop_first()[m] == accounts[m + 1]);
        lemma_first_account(accounts.drop_first(), addr, i - 1);
        assert(forall|d: Denomination|
            #[trigger] balance_of(accounts, addr, d) == balance_of(
                accounts.drop_first(),
                addr,
                d,
            ));
    }
}

/// An address without an account has no entries and only zero balances.
pub proof fn lemma_no_account(accounts: Seq<AccountView>, addr: Address)
    requires
        !has_account(accounts, addr),
    ensures
        balances_of(accounts, addr) == Seq::<(Denomination, u128)>::empty(),
        forall|d: Denomination| #[trigger] balance_of(accounts, addr, d) == 0,
    decreases accounts.len(),
{
    if accounts.len() > 0 {
        assert(accounts[0].address != addr);
        assert(forall|m: int|
            0 <= m < accounts.drop_first().len() ==> #[trigger] accounts.drop_first()[m]
                == accounts[m + 1]);
        lemma_no_account(accounts.drop_first(), addr);
        assert(forall|d: Denomination|
            #[trigger] balance_of(accounts, addr, d) == balance_of(
                accounts.drop_first(),
                addr,
                d,
            ));
    }
}

/// Appending an entry leaves every earlier denomination's balance unchanged
/// and gives a fresh denomination its value.
pub proof fn lemma_balance_in_push(entries: Seq<(Denomination, u128)>, p: (Denomination, u128))
    ensures
        !has_denom(entries, p.0) ==> balance_in(entries.push(p), p.0) == p.1,
        forall|d: Denomination|
            d != p.0 ==> #[trigger] balance_in(entries.push(p), d) == balance_in(entries, d),
        forall|d: Denomination|
            has_denom(entries, d) ==> #[trigger] balance_in(entries.push(p), d) == balance_in(
                entries,
                d,
            ),
    decreases entries.len(),
{
    if entries.len() == 0 {
        assert(entries.push(p)[0] == p);
        assert(entries.push(p).drop_first() =~= Seq::<(Denomination, u128)>::empty());
        assert forall|d: Denomination|
            d != p.0 implies #[trigger] balance_in(entries.push(p), d) == balance_in(
            entries,
            d,
        ) by {
            assert(balance_in(entries.push(p), d) == balance_in(
                Seq::<(Denomination, u128)>::empty(),
                d,
            ));
        }
    } else {
        assert(entries.push(p)[0] == entries[0]);
        assert(entries.push(p).drop_first() =~= entries.drop_first().push(p));
        assert(forall|m: int|
            0 <= m < entries.drop_first().len() ==> #[trigger] entries.drop_first()[m]
                == entries[m + 1]);
        lemma_balance_in_push(entries.drop_first(), p);
        if !has_denom(entries, p.0) {
            assert(!has_denom(entries.drop_first(), p.0));
            assert(entries[0].0 != p.0);
            assert(balance_in(entries.push(p), p.0) == balance_in(
                entries.drop_first().push(p),
                p.0,
            ));
        }
        assert forall|d: Denomination|
            d != p.0 || has_denom(entries, d) implies #[trigger] balance_in(entries.push(p), d)
            == balance_in(entries, d) by {
            if entries[0].0 == d {
                assert(balance_in(entries.push(p), d) == entries[0].1);
                assert(balance_in(entries, d) == entries[0].1);
            } else {
                if has_denom(entries, d) {
                    let m = choose|m: int| 0 <= m < entries.len() && entries[m].0 == d;
                    assert(entries.drop_first()[m - 1] == entries[m]);
                    assert(has_denom(entries.drop_first(), d));
                }
                assert(balance_in(entries.push(p), d) == balance_in(
                    entries.drop_first().push(p),
                    d,
                ));
                assert(balance_in(entries, d) == balance_in(entries.drop_first(), d));
            }
        }
    }
}

/// Replacing the first account for an address rewrites that address's
/// balances and no other's.
pub proof fn lemma_balance_of_update(accounts: Seq<AccountView>, i: int, acct: AccountView)
    requires
        0 <= i < accounts.len(),
        accounts[i].address == acct.address,
        forall|m: int| 0 <= m < i ==> (#[trigger] accounts[m]).address != acct.address,
    ensures
        forall|d: Denomination|
            #[trigger] balance_of(accounts.update(i, acct), acct.address, d) == balance_in(
                acct.balances,
                d,
            ),
        forall|a: Address, d: Denomination|
            a != acct.address ==> #[trigger] balance_of(accounts.update(i, acct), a, d)
                == balance_of(accounts, a, d),
    decreases accounts.len(),
{
    if i == 0 {
        assert(accounts.update(0, acct)[0] == acct);
        assert(accounts.update(0, acct).drop_first() =~= accounts.drop_first());
        assert forall|a: Address, d: Denomination|
            a != acct.address implies #[trigger] balance_of(accounts.update(i, acct), a, d)
            == balance_of(accounts, a, d) by {
            assert(balance_of(accounts.update(i, acct), a, d) == balance_of(
                accounts.drop_first(),
                a,
                d,
            ));
            assert(balance_of(accounts, a, d) == balance_of(accounts.drop_first(), a, d));
        }
    } else {
        assert(accounts[0].address != acct.address);
        assert(accounts.update(i, acct)[0] == accounts[0]);
        assert(accounts.update(i, acct).drop_first() =~= accounts.drop_first().update(
            i - 1,
            acct,
        ));
        assert(accounts.drop_first()[i - 1] == accounts[i]);
        assert(forall|m: int|
            0 <= m < i - 1 ==> #[trigger] accounts.drop_first()[m] == accounts[m + 1]);
        lemma_balance_of_update(accounts.drop_first(), i - 1, acct);
        assert forall|d: Denomination|
            #[trigger] balance_of(accounts.update(i, acct), acct.address, d) == balance_in(
            acct.balances,
            d,
        ) by {
            assert(balance_of(accounts.update(i, acct), acct.address, d) == balance_of(
                accounts.drop_first().update(i - 1, acct),
                acct.address,
                d,
            ));
        }
        assert forall|a: Address, d: Denomination|
            a != acct.address implies #[trigger] balance_of(accounts.update(i, acct), a, d)
            == balance_of(accounts, a, d) by {
            if accounts[0].address == a {
                assert(balance_of(accounts.update(i, acct), a, d) == balance_in(
                    accounts[0].balances,
                    d,
                ));
                assert(balance_of(accounts, a, d) == balance_in(accounts[0].balances, d));
            } else {
                assert(balance_of(accounts.update(i, acct), a, d) == balance_of(
                    accounts.drop_first().update(i - 1, acct),
                    a,
                    d,
                ));
                assert(balance_of(accounts, a, d) == balance_of(accounts.drop_first(), a, d));
            }
        }
    }
}

/// Appending an account for a fresh address gives it its balances and
/// changes no other address's reads.
pub proof fn lemma_balance_of_push(accounts: Seq<AccountView>, acct: AccountView)
    requires
        !has_account(accounts, acct.address),
    ensures
        forall|d: Denomination|
            #[trigger] balance_of(accounts.push(acct), acct.address, d) == balance_in(
                acct.balances,
                d,
            ),
        forall|a: Address, d: Denomination|
            a != acct.address ==> #[trigger] balance_of(accounts.push(acct), a, d) == balance_of(
                accounts,
                a,
                d,
            ),
    decreases accounts.len(),
{
    if accounts.len() == 0 {
        assert(accounts.push(acct)[0] == acct);
        assert(accounts.push(acct).drop_first() =~= Seq::<AccountView>::empty());
        assert forall|a: Address, d: Denomination|
            a != acct.address implies #[trigger] balance_of(accounts.push(acct), a, d)
            == balance_of(accounts, a, d) by {
            assert(balance_of(accounts.push(acct), a, d) == balance_of(
                Seq::<AccountView>::empty(),
                a,
                d,
            ));
        }
    } else {
        assert(accounts.push(acct)[0] == accounts[0]);
        assert(accounts.push(acct).drop_first() =~= accounts.drop_first().push(acct));
        assert(forall|m: int|
            0 <= m < accounts.drop_first().len() ==> #[trigger] accounts.drop_first()[m]
                == accounts[m + 1]);
        assert(!has_account(accounts.drop_first(), acct.address));
        lemma_balance_of_push(accounts.drop_first(), acct);
        assert(accounts[0].address != acct.address);
        assert forall|d: Denomination|
            #[trigger] balance_of(accounts.push(acct), acct.address, d) == balance_in(
            acct.balances,
            d,
        ) by {
            assert(balance_of(accounts.push(acct), acct.address, d) == balance_of(
                accounts.drop_first().push(acct),
                acct.address,
                d,
            ));
        }
        assert forall|a: Address, d: Denomination|
            a != acct.address implies #[trigger] balance_of(accounts.push(acct), a, d)
            == balance_of(accounts, a, d) by {
            if accounts[0].address == a {
                assert(balance_of(accounts.push(acct), a, d) == balance_in(
                    accounts[0].balances,
                    d,
                ));
                assert(balance_of(accounts, a, d) == balance_in(accounts[0].balances, d));
            } else {
                assert(balance_of(accounts.push(acct), a, d) == balance_of(
                    accounts.drop_first().push(acct),
                    a,
                    d,
                ));
                assert(balance_of(accounts, a, d) == balance_of(accounts.drop_first(), a, d));
            }
        }
    }
}

/// Appending an account adds its balance to the sum.
pub proof fn lemma_sum_denom_push(accounts: Seq<AccountView>, a: AccountView, d: Denomination)
    ensures
        sum_denom(accounts.push(a), d) == sum_denom(accounts, d) + balance_in(a.balances, d),
    decreases accounts.len(),
{
    if accounts.len() == 0 {
        assert(accounts.push(a)[0] == a);
        assert(accounts.push(a).drop_first() =~= Seq::<AccountView>::empty());
        assert(sum_denom(Seq::<AccountView>::empty(), d) == 0);
        assert(sum_denom(accounts.push(a), d) == balance_in(a.balances, d) as nat + 0);
    } else {
        assert(accounts.push(a)[0] == accounts[0]);
        assert(accounts.push(a).drop_first() =~= accounts.drop_first().push(a));
        lemma_sum_denom_push(accounts.drop_first(), a, d);
    }
}

/// The sum over the first `i + 1` accounts extends the sum over the first
/// `i` accounts by the balance of account `i`.
pub proof fn lemma_sum_denom_take_succ(accounts: Seq<AccountView>, d: Denomination, i: int)
    requires
        0 <= i < accounts.len(),
    ensures
        sum_denom(accounts.take(i + 1), d) == sum_denom(accounts.take(i), d)
            + balance_in(accounts[i].balances, d),
{
    assert(accounts.take(i + 1) =~= accounts.take(i).push(accounts[i]));
    lemma_sum_denom_push(accounts.take(i), accounts[i], d);
}

/// A partial sum never exceeds the full sum.
pub proof fn lemma_sum_denom_take_le(accounts: Seq<AccountView>, d: Denomination, i: int)
    requires
        0 <= i <= accounts.len(),
    ensures
        sum_denom(accounts.take(i), d) <= sum_denom(accounts, d),
    decreases accounts.len() - i,
{
    if i == accounts.len() {
        assert(accounts.take(i) =~= accounts);
    } else {
        lemma_sum_denom_take_succ(accounts, d, i);
        lemma_sum_denom_take_le(accounts, d, i + 1);
    }
}

/// Each account's balance is bounded by the sum over all accounts.
pub proof fn lemma_balance_le_sum_denom(accounts: Seq<AccountView>, d: Denomination, i: int)
    requires
        0 <= i < accounts.len(),
    ensures
        balance_in(accounts[i].balances, d) <= sum_denom(accounts, d),
{
    lemma_sum_denom_take_succ(accounts, d, i);
    lemma_sum_denom_take_le(accounts, d, i + 1);
}

/// The sum is zero exactly when every account's balance is zero.
pub proof fn lemma_sum_denom_zero(accounts: Seq<AccountView>, d: Denomination)
    ensures
        sum_denom(accounts, d) == 0 <==> forall|i: int|
            0 <= i < accounts.len() ==> balance_in(
                (#[trigger] accounts[i]).balances,
                d,
            ) == 0,
    decreases accounts.len(),
{
    if accounts.len() > 0 {
        lemma_sum_denom_zero(accounts.drop_first(), d);
        assert(forall|i: int|
            0 <= i < accounts.drop_first().len()
                ==> #[trigger] accounts.drop_first()[i] == accounts[i + 1]);
        if sum_denom(accounts, d) == 0 {
            assert(forall|i: int|
                1 <= i < accounts.len() ==> balance_in((#[trigger] accounts[i]).balances, d)
                    == balance_in(accounts.drop_first()[i - 1].balances, d));
        }
    }
}

/// Removing an account subtracts its balance from the sum.
pub proof fn lemma_sum_denom_remove(accounts: Seq<AccountView>, d: Denomination, i: int)
    requires
        0 <= i < accounts.len(),
    ensures
        sum_denom(accounts, d) == balance_in(accounts[i].balances, d)
            + sum_denom(accounts.remove(i), d),
    decreases accounts.len(),
{
    if i == 0 {
        assert(accounts.remove(0) =~= accounts.drop_first());
    } else {
        assert(accounts.remove(i)[0] == accounts[0]);
        assert(accounts.remove(i).drop_first() =~= accounts.drop_first().remove(i - 1));
        assert(accounts.drop_first()[i - 1] == accounts[i]);
        lemma_sum_denom_remove(accounts.drop_first(), d, i - 1);
    }
}

/// Find the first account recorded for `address`.
pub fn find_account_index(accounts: &Vec<Account>, address: Address) -> (r: Option<usize>)
    ensures
        match r {
            Some(i) => i < accounts@.len() && views_of(accounts@)[i as int].address == address
                && forall|m: int|
                0 <= m < i ==> (#[trigger] views_of(accounts@)[m]).address != address,
            None => !has_account(views_of(accounts@), address),
        },
{
    let mut i: usize = 0;
    while i < accounts.len()
        invariant
            i <= accounts@.len(),
            forall|m: int|
                0 <= m < i ==> (#[trigger] views_of(accounts@)[m]).address != address,
        decreases accounts@.len() - i,
    {
        proof {
            assert(views_of(accounts@)[i as int] == accounts@[i as int]@);
        }
        if accounts[i].address == address {
            return Some(i);
        }
        i += 1;
    }
    None
}

impl Ledger {
    /// An empty ledger: no accounts, no recorded supplies.
    pub fn new() -> (r: Ledger)
        ensures
            r@.accounts.len() == 0,
            r@.total_supplies.len() == 0,
            ledger_wf(r@),
    {
        let r = Ledger { accounts: Vec::new(), total_supplies: Vec::new() };
        proof {
            assert(views_of(r.accounts@) =~= Seq::<AccountView>::empty());
        }
        r
    }

    /// Read the balance of `address` in `denomination`; an absent account or
    /// entry reads as zero.
    pub fn get_balance(&self, address: Address, denomination: Denomination) -> (r: u128)
        ensures
            r == balance_of(self@.accounts, address, denomination),
    {
        match find_account_index(&self.accounts, address) {
            Some(i) => {
                proof {
                    lemma_first_account(self@.accounts, address, i as int);
                    assert(self@.accounts[i as int] == self.accounts@[i as int]@);
                }
                lookup_balance(&self.accounts[i].balances, denomination)
            },
            None => {
                proof {
                    lemma_no_account(self@.accounts, address);
                }
                0
            },
        }
    }

    /// Read all balance entries of the account at `address`, or nothing when
    /// no account is recorded for it.
    pub fn get_balances(&self, address: Address) -> (r: Option<Vec<(Denomination, u128)>>)
        ensures
            r is Some <==> has_account(self@.accounts, address),
            r is Some ==> r->Some_0@ == balances_of(self@.accounts, address),
    {
        match find_account_index(&self.accounts, address) {
            Some(i) => {
                proof {
                    lemma_first_account(self@.accounts, address, i as int);
                    assert(self@.accounts[i as int] == self.accounts@[i as int]@);
                }
                Some(copy_entries(&self.accounts[i].balances))
            },
            None => None,
        }
    }

    /// Read the recorded total supply of `denomination`, zero when absent.
    pub fn get_total_supply(&self, denomination: Denomination) -> (r: u128)
        ensures
            r == total_supply_of(self@, denomination),
    {
        lookup_balance(&self.total_supplies, denomination)
    }

    /// Record `amount` as the total supply of `denomination`, leaving every
    /// other denomination's supply and all accounts untouched.
    pub fn set_total_supply(&mut self, denomination: Denomination, amount: u128)
        requires
            ledger_wf(old(self)@),
        ensures
            ledger_wf(final(self)@),
            total_supply_of(final(self)@, denomination) == amount,
            forall|d: Denomination|
                d != denomination ==> #[trigger] total_supply_of(final(self)@, d)
                    == total_supply_of(old(self)@, d),
            final(self)@.accounts == old(self)@.accounts,
    {
        match find_denom_index(&self.total_supplies, denomination) {
            Some(j) => {
                proof {
                    lemma_balance_in_update(
                        self.total_supplies@,
                        j as int,
                        (denomination, amount),
                    );
                }
                self.total_supplies[j] = (denomination, amount);
                proof {
                    assert(forall|p: int|
                        0 <= p < self.total_supplies@.len()
                            ==> (#[trigger] self.total_supplies@[p]).0
                            == old(self).total_supplies@[p].0);
                    assert(denoms_unique(self.total_supplies@));
                }
            },
            None => {
                proof {
                    lemma_balance_in_push(self.total_supplies@, (denomination, amount));
                }
                self.total_supplies.push((denomination, amount));
                proof {
                    let oldsup = old(self).total_supplies@;
                    assert(self.total_supplies@ == oldsup.push((denomination, amount)));
                    assert forall|p: int, q: int|
                        0 <= p < q < self.total_supplies@.len() implies (
                        #[trigger] self.total_supplies@[p]).0 != (
                        #[trigger] self.total_supplies@[q]).0 by {
                        if q == oldsup.len() {
                            assert(self.total_supplies@[p] == oldsup[p]);
                            assert(self.total_supplies@[q].0 == denomination);
                            assert(oldsup[p].0 != denomination);
                        } else {
                            assert(self.total_supplies@[p] == oldsup[p]);
                            assert(self.total_supplies@[q] == oldsup[q]);
                        }
                    }
                }
            },
        }
        proof {
            assert forall|p: int, q: int|
                0 <= p < q < self@.accounts.len() implies (#[trigger] self@.accounts[p]).address
                != (#[trigger] self@.accounts[q]).address by {
                assert(self@.accounts[p] == old(self)@.accounts[p]);
                assert(self@.accounts[q] == old(self)@.accounts[q]);
            }
            assert forall|p: int| 0 <= p < self@.accounts.len() implies account_wf(
                #[trigger] self@.accounts[p],
            ) by {
                assert(self@.accounts[p] == old(self)@.accounts[p]);
            }
        }
    }

    /// Record `amount` as the balance of `address` in `denomination`,
    /// creating the account or the entry as needed, and leaving every other
    /// balance and all supplies untouched.
    pub fn set_balance(&mut self, address: Address, denomination: Denomination, amount: u128)
        requires
            ledger_wf(old(self)@),
        ensures
            ledger_wf(final(self)@),
            balance_of(final(self)@.accounts, address, denomination) == amount,
            forall|a: Address, d: Denomination|
                !(a == address && d == denomination) ==> #[trigger] balance_of(
                    final(self)@.accounts,
                    a,
                    d,
                ) == balance_of(old(self)@.accounts, a, d),
            forall|a: Address|
                #[trigger] has_account(final(self)@.accounts, a) <==> has_account(
                    old(self)@.accounts,
                    a,
                ) || a == address,
            final(self)@.total_supplies == old(self)@.total_supplies,
    {
        let ghost olds = self@.accounts;
        match find_account_index(&self.accounts, address) {
            Some(i) => {
                proof {
                    lemma_first_account(olds, address, i as int);
                }
                let mut acct = self.accounts.remove(i);
                proof {
                    assert(olds[i as int] == acct@);
                }
                let ghost oldbal = acct.balances@;
                match find_denom_index(&acct.balances, denomination) {
                    Some(j) => {
                        proof {
                            lemma_balance_in_update(
                                acct.balances@,
                                j as int,
                                (denomination, amount),
                            );
                        }
                        acct.balances[j] = (denomination, amount);
                        proof {
                            assert(forall|p: int|
                                0 <= p < acct.balances@.len()
                                    ==> (#[trigger] acct.balances@[p]).0 == oldbal[p].0);
                        }
                    },
                    None => {
                        proof {
                            lemma_balance_in_push(acct.balances@, (denomination, amount));
                        }
                        acct.balances.push((denomination, amount));
                        proof {
                            assert forall|p: int, q: int|
                                0 <= p < q < acct.balances@.len() implies (
                                #[trigger] acct.balances@[p]).0 != (
                                #[trigger] acct.balances@[q]).0 by {
                                if q == oldbal.len() {
                                    assert(acct.balances@[p] == oldbal[p]);
                                    assert(oldbal[p].0 != denomination);
                                } else {
                                    assert(acct.balances@[p] == oldbal[p]);
                                    assert(acct.balances@[q] == oldbal[q]);
                                }
                            }
                        }
                    },
                }
                proof {
                    assert(denoms_unique(acct.balances@));
                    lemma_balance_of_update(olds, i as int, acct@);
                }
                self.accounts.insert(i, acct);
                proof {
                    let upd = olds.update(i as int, acct@);
                    assert(views_of(self.accounts@) =~= upd);
                    assert forall|p: int, q: int|
                        0 <= p < q < upd.len() implies (#[trigger] upd[p]).address != (
                        #[trigger] upd[q]).address by {
                        assert(upd[p] == (if p == i as int {
                            acct@
                        } else {
                            olds[p]
                        }));
                        assert(upd[q] == (if q == i as int {
                            acct@
                        } else {
                            olds[q]
                        }));
                        assert(acct@.address == olds[i as int].address);
                    }
                    assert forall|p: int| 0 <= p < upd.len() implies account_wf(
                        #[trigger] upd[p],
                    ) by {
                        if p != i as int {
                            assert(upd[p] == olds[p]);
                        }
                    }
                    assert forall|a: Address|
                        (#[trigger] has_account(upd, a) <==> has_account(olds, a) || a
                            == address) by {
                        if has_account(upd, a) {
                            let m = choose|m: int| 0 <= m < upd.len() && upd[m].address == a;
                            if m != i as int {
                                assert(upd[m] == olds[m]);
                            }
                        }
                        if a == address {
                            assert(upd[i as int].address == a);
                        }
                        if has_account(olds, a) && a != address {
                            let m = choose|m: int| 0 <= m < olds.len() && olds[m].address == a;
                            assert(m != i as int);
                            assert(upd[m] == olds[m]);
                        }
                    }
                }
            },
            None => {
                proof {
                    lemma_no_account(olds, address);
                }
                let mut balances: Vec<(Denomination, u128)> = Vec::new();
                balances.push((denomination, amount));
                let acct = Account { address, balances };
                proof {
                    assert(acct@.balances.len() == 1);
                    assert(denoms_unique(acct@.balances));
                    assert(balance_in(acct@.balances, denomination) == amount);
                    assert forall|d: Denomination|
                        d != denomination implies #[trigger] balance_in(acct@.balances, d)
                        == 0 by {
                        assert(balance_in(acct@.balances.drop_first(), d) == 0);
                    }
                    lemma_balance_of_push(olds, acct@);
                }
                self.accounts.push(acct);
                proof {
                    let upd = olds.push(acct@);
                    assert(views_of(self.accounts@) =~= upd);
                    assert forall|p: int, q: int|
                        0 <= p < q < upd.len() implies (#[trigger] upd[p]).address != (
                        #[trigger] upd[q]).address by {
                        if q == olds.len() {
                            assert(upd[p] == olds[p]);
                            assert(upd[q] == acct@);
                            assert(olds[p].address != address);
                        } else {
                            assert(upd[p] == olds[p]);
                            assert(upd[q] == olds[q]);
                        }
                    }
                    assert forall|p: int| 0 <= p < upd.len() implies account_wf(
                        #[trigger] upd[p],
                    ) by {
                        if p != olds.len() {
                            assert(upd[p] == olds[p]);
                        }
                    }
                    assert forall|a: Address|
                        (#[trigger] has_account(upd, a) <==> has_account(olds, a) || a
                            == address) by {
                        if has_account(upd, a) {
                            let m = choose|m: int| 0 <= m < upd.len() && upd[m].address == a;
                            if m != olds.len() {
                                assert(upd[m] == olds[m]);
                            } else {
                                assert(upd[m] == acct@);
                            }
                        }
                        if a == address {
                            assert(upd[olds.len() as int].address == a);
                        }
                        if has_account(olds, a) {
                            let m = choose|m: int| 0 <= m < olds.len() && olds[m].address == a;
                            assert(upd[m] == olds[m]);
                        }
                    }
                }
            },
        }
    }

    /// Every address holding a nonzero balance in `denomination`, each
    /// exactly once, in no promised order. The enumeration is exhaustive: a
    /// missed address would silently under-count the total supply.
    pub fn enumerate_addresses(&self, denomination: Denomination) -> (r: Vec<Address>)
        requires
            ledger_wf(self@),
        ensures
            r@.no_duplicates(),
            forall|a: Address|
                #[trigger] r@.contains(a) <==> balance_of(self@.accounts, a, denomination) > 0,
    {
        let ghost avs = self@.accounts;
        let mut r: Vec<Address> = Vec::new();
        let mut i: usize = 0;
        while i < self.accounts.len()
            invariant
                i <= self.accounts@.len(),
                avs == self@.accounts,
                ledger_wf(self@),
                r@.no_duplicates(),
                forall|a: Address| #[trigger]
                    r@.contains(a) <==> exists|m: int|
                        0 <= m < i && (#[trigger] avs[m]).address == a && balance_in(
                            avs[m].balances,
                            denomination,
                        ) > 0,
            decreases self.accounts@.len() - i,
        {
            proof {
                assert(avs[i as int] == self.accounts@[i as int]@);
            }
            let ghost r_old = r@;
            let b = lookup_balance(&self.accounts[i].balances, denomination);
            if b > 0 {
                proof {
                    assert(!r@.contains(self.accounts@[i as int]@.address)) by {
                        if r@.contains(avs[i as int].address) {
                            let m = choose|m: int|
                                0 <= m < i && avs[m].address == avs[i as int].address
                                    && balance_in(avs[m].balances, denomination) > 0;
                            assert(avs[m].address != avs[i as int].address);
                        }
                    }
                }
                r.push(self.accounts[i].address);
            }
            proof {
                assert forall|a: Address|
                    (#[trigger] r@.contains(a) <==> exists|m: int|
                        0 <= m < i + 1 && (#[trigger] avs[m]).address == a && balance_in(
                            avs[m].balances,
                            denomination,
                        ) > 0) by {
                    if b > 0 && a == avs[i as int].address {
                        assert(r@[r_old.len() as int] == a);
                        assert(r@.contains(a));
                        assert(avs[i as int].address == a && balance_in(
                            avs[i as int].balances,
                            denomination,
                        ) > 0);
                    } else {
                        assert(r@.contains(a) <==> r_old.contains(a)) by {
                            if r@.contains(a) {
                                let idx = choose|idx: int| 0 <= idx < r@.len() && r@[idx] == a;
                                assert(idx < r_old.len());
                                assert(r_old[idx] == a);
                            }
                            if r_old.contains(a) {
                                let idx = choose|idx: int|
                                    0 <= idx < r_old.len() && r_old[idx] == a;
                                assert(r@[idx] == a);
                            }
                        }
                        if exists|m: int|
                            0 <= m < i + 1 && (#[trigger] avs[m]).address == a && balance_in(
                                avs[m].balances,
                                denomination,
                            ) > 0 {
                            let m = choose|m: int|
                                0 <= m < i + 1 && (#[trigger] avs[m]).address == a && balance_in(
                                    avs[m].balances,
                                    denomination,
                                ) > 0;
                            assert(m < i);
                        }
                    }
                }
            }
            i += 1;
        }
        proof {
            assert forall|a: Address| #[trigger]
                r@.contains(a) <==> balance_of(avs, a, denomination) > 0 by {
                if r@.contains(a) {
                    let m = choose|m: int|
                        0 <= m < avs.len() && (#[trigger] avs[m]).address == a && balance_in(
                            avs[m].balances,
                            denomination,
                        ) > 0;
                    assert forall|p: int| 0 <= p < m implies (#[trigger] avs[p]).address != a by {
                        assert(avs[p].address != avs[m].address);
                    }
                    lemma_first_account(avs, a, m);
                } else {
                    if balance_of(avs, a, denomination) > 0 {
                        assert(has_account(avs, a)) by {
                            if !has_account(avs, a) {
                                lemma_no_account(avs, a);
                            }
                        }
                        let m0 = choose|m: int| 0 <= m < avs.len() && avs[m].address == a;
                        assert forall|p: int|
                            0 <= p < m0 implies (#[trigger] avs[p]).address != a by {
                            assert(avs[p].address != avs[m0].address);
                        }
                        lemma_first_account(avs, a, m0);
                        assert(balance_in(avs[m0].balances, denomination) > 0);
                    }
                }
            }
        }
        r
    }
}

/// The sum of balances depends only on which accounts the ledger holds, not
/// on the order they are enumerated in: any two ledgers whose account lists
/// are permutations of each other have the same per-denomination sum, and
/// therefore — by the rescale contract — the same post-migration total
/// supply.
pub proof fn lemma_sum_denom_permutation(
    s1: Seq<AccountView>,
    s2: Seq<AccountView>,
    d: Denomination,
)
    requires
        s1.to_multiset() == s2.to_multiset(),
    ensures
        sum_denom(s1, d) == sum_denom(s2, d),
    decreases s1.len(),
{
    broadcast use vstd::seq_lib::group_to_multiset_ensures;

    if s1.len() == 0 {
        assert(s1.to_multiset().len() == 0);
        assert(s2.to_multiset().len() == 0);
        assert(s2.len() == 0);
    } else {
        let a = s1[0];
        assert(s1.contains(a));
        assert(s2.to_multiset().count(a) > 0);
        assert(s2.contains(a));
        let i = choose|i: int| 0 <= i < s2.len() && s2[i] == a;
        assert(s1.remove(0).to_multiset() =~= s1.to_multiset().remove(a));
        assert(s2.remove(i).to_multiset() =~= s2.to_multiset().remove(a));
        assert(s1.remove(0) =~= s1.drop_first());
        lemma_sum_denom_permutation(s1.drop_first(), s2.remove(i), d);
        lemma_sum_denom_remove(s2, d, i);
    }
}

} // verus!
