//! The migration engine: the balance rescale transform, the global invariant
//! check, and the version-gated migration entry point. The transform buffers
//! every write and commits only after the full pass succeeds, so any failure
//! leaves the persisted state untouched.

use vstd::prelude::*;

use crate::ledger::account_wf;
use crate::ledger::balance_in;
use crate::ledger::copy_entries;
use crate::ledger::denoms_unique;
use crate::ledger::find_denom_index;
use crate::ledger::has_denom;
use crate::ledger::ledger_wf;
use crate::ledger::lemma_balance_in_absent;
use crate::ledger::lemma_balance_in_index;
use crate::ledger::lemma_balance_le_sum_denom;
use crate::ledger::lemma_sum_denom_take_le;
use crate::ledger::lemma_sum_denom_take_succ;
use crate::ledger::lookup_balance;
use crate::ledger::sum_denom;
use crate::ledger::total_supply_of;
use crate::ledger::views_of;
use crate::ledger::Account;
use crate::ledger::AccountView;
use crate::ledger::Ledger;
use crate::ledger::LedgerView;
use crate::genesis::is_target_parameter_store;
use crate::ledger::balance_of;
use crate::ledger::consistent;
use crate::ledger::lemma_sum_denom_zero;
use crate::params::ParameterStore;
use crate::registry::apply_module_params;
use crate::registry::module_order;
use crate::registry::module_order_spec;
use crate::registry::module_params_eq;
use crate::registry::module_params_target;
use crate::types::Address;
use crate::types::Denomination;
use crate::types::MigrationError;
use crate::BuildConfig;
use crate::Runtime;

verus! {

/// The scaled native total: the sum of all native balances, rescaled by `k`.
pub open spec fn native_sum_scaled(lv: LedgerView, k: int) -> int {
    k * sum_denom(lv.accounts, Denomination::Native)
}

/// Rescaling the ledger by `k` overflows: either the accumulated total of
/// the scaled balances, or the expected total recomputed from the recorded
/// supply, exceeds the balance width. The latter is only ever computed when
/// the accumulated total is positive.
pub open spec fn rescale_overflows(lv: LedgerView, k: int) -> bool {
    ||| native_sum_scaled(lv, k) > u128::MAX
    ||| (native_sum_scaled(lv, k) > 0 && k * total_supply_of(lv, Denomination::Native)
        > u128::MAX)
}

/// Rescaling the ledger by `k` uncovers a pre-existing inconsistency: the
/// expected total recomputed from the recorded supply differs from the
/// accumulated total of the scaled balances.
pub open spec fn rescale_mismatch(lv: LedgerView, k: int) -> bool {
    &&& !rescale_overflows(lv, k)
    &&& native_sum_scaled(lv, k) > 0
    &&& k * total_supply_of(lv, Denomination::Native) != native_sum_scaled(lv, k)
}

/// One balance entry after rescaling: a native balance is multiplied by `k`,
/// every other denomination is untouched.
pub open spec fn scaled_entry(p: (Denomination, u128), k: int) -> (Denomination, u128) {
    if p.0 == Denomination::Native {
        (p.0, (p.1 * k) as u128)
    } else {
        p
    }
}

/// An account's balance entries after rescaling.
pub open spec fn scaled_entries(e: Seq<(Denomination, u128)>, k: int) -> Seq<(Denomination, u128)> {
    e.map_values(|p: (Denomination, u128)| scaled_entry(p, k))
}

/// All accounts after rescaling: addresses and denomination sets are kept,
/// native balances are multiplied by `k`.
pub open spec fn scaled_accounts(s: Seq<AccountView>, k: int) -> Seq<AccountView> {
    s.map_values(
        |a: AccountView| AccountView { address: a.address, balances: scaled_entries(a.balances, k) },
    )
}

/// The supply table after rescaling: the native entry is overwritten with
/// the accumulated total `t`, every other denomination is untouched.
pub open spec fn scaled_supplies(sup: Seq<(Denomination, u128)>, t: int) -> Seq<
    (Denomination, u128),
> {
    sup.map_values(
        |p: (Denomination, u128)|
            if p.0 == Denomination::Native {
                (p.0, t as u128)
            } else {
                p
            },
    )
}

/// The whole ledger after rescaling by `k`. The recorded native supply is
/// only rewritten when the accumulated total is positive; an all-zero ledger
/// keeps its supply table as it is.
pub open spec fn scaled_ledger(lv: LedgerView, k: int) -> LedgerView {
    LedgerView {
        accounts: scaled_accounts(lv.accounts, k),
        total_supplies: if native_sum_scaled(lv, k) > 0 {
            scaled_supplies(lv.total_supplies, native_sum_scaled(lv, k))
        } else {
            lv.total_supplies
        },
    }
}

/// Rescale one account's balance entries by `factor`, returning the new
/// entries and the scaled native balance, or the overflow that prevented it.
fn rescale_account_entries(entries: &Vec<(Denomination, u128)>, factor: u128) -> (r: Result<
    (Vec<(Denomination, u128)>, u128),
    MigrationError,
>)
    requires
        denoms_unique(entries@),
        factor >= 1,
    ensures
        r is Ok <==> factor * balance_in(entries@, Denomination::Native) <= u128::MAX,
        r is Ok ==> r->Ok_0.0@ == scaled_entries(entries@, factor as int),
        r is Ok ==> r->Ok_0.1 == factor * balance_in(entries@, Denomination::Native),
        r is Err ==> r->Err_0 == MigrationError::ArithmeticOverflow,
{
    let mut out: Vec<(Denomination, u128)> = Vec::new();
    let mut native_scaled: u128 = 0;
    let ghost mut seen: bool = false;
    let mut j: usize = 0;
    while j < entries.len()
        invariant
            j <= entries@.len(),
            denoms_unique(entries@),
            factor >= 1,
            out@.len() == j,
            forall|m: int|
                0 <= m < j ==> out@[m] == scaled_entry(#[trigger] entries@[m], factor as int),
            seen ==> factor * balance_in(entries@, Denomination::Native) <= u128::MAX
                && native_scaled == factor * balance_in(entries@, Denomination::Native),
            !seen ==> native_scaled == 0 && !has_denom(
                entries@.take(j as int),
                Denomination::Native,
            ),
        decreases entries@.len() - j,
    {
        let (d, b) = entries[j];
        if d == Denomination::Native {
            proof {
                lemma_balance_in_index(entries@, Denomination::Native, j as int);
            }
            match b.checked_mul(factor) {
                Some(nb) => {
                    out.push((d, nb));
                    native_scaled = nb;
                    proof {
                        seen = true;
                        assert(nb == factor * balance_in(entries@, Denomination::Native))
                            by (nonlinear_arith)
                            requires
                                nb == b * factor,
                                b == balance_in(entries@, Denomination::Native),
                        ;
                    }
                },
                None => {
                    proof {
                        assert(factor * balance_in(entries@, Denomination::Native) > u128::MAX)
                            by (nonlinear_arith)
                            requires
                                b * factor > u128::MAX,
                                b == balance_in(entries@, Denomination::Native),
                        ;
                    }
                    return Err(MigrationError::ArithmeticOverflow);
                },
            }
        } else {
            out.push((d, b));
        }
        proof {
            assert(entries@.take(j + 1) =~= entries@.take(j as int).push(entries@[j as int]));
            if !seen {
                assert(forall|m: int|
                    0 <= m < j + 1 ==> (#[trigger] entries@.take(j + 1)[m]).0
                        != Denomination::Native);
            }
        }
        j += 1;
    }
    proof {
        assert(entries@.take(j as int) =~= entries@);
        if !seen {
            lemma_balance_in_absent(entries@, Denomination::Native);
        }
        assert(out@ =~= scaled_entries(entries@, factor as int));
    }
    Ok((out, native_scaled))
}

/// Rescale every native-denomination balance in the ledger by `factor`,
/// accumulate the new total supply with checked arithmetic, and check it
/// against the total recomputed from the recorded supply. Nothing is written
/// to the given ledger: the rescaled ledger is built aside and returned only
/// when the whole pass succeeds, so a failure leaves the ledger untouched.
pub fn rescale_ledger(ledger: &Ledger, factor: u64) -> (r: Result<Ledger, MigrationError>)
    requires
        ledger_wf(ledger@),
        factor >= 1,
    ensures
        r is Ok <==> !rescale_overflows(ledger@, factor as int) && !rescale_mismatch(
            ledger@,
            factor as int,
        ),
        r is Ok ==> r->Ok_0@ == scaled_ledger(ledger@, factor as int),
        r is Ok ==> ledger_wf(r->Ok_0@),
        r == Err::<Ledger, MigrationError>(MigrationError::ArithmeticOverflow)
            <==> rescale_overflows(ledger@, factor as int),
        r == Err::<Ledger, MigrationError>(MigrationError::LedgerInconsistency)
            <==> rescale_mismatch(ledger@, factor as int),
{
    let ghost lv = ledger@;
    let ghost k = factor as int;
    let k128 = factor as u128;
    let mut new_accounts: Vec<Account> = Vec::new();
    let mut new_total: u128 = 0;
    let mut i: usize = 0;
    proof {
        assert(lv.accounts.take(0) =~= Seq::<AccountView>::empty());
        assert(sum_denom(Seq::<AccountView>::empty(), Denomination::Native) == 0);
    }
    while i < ledger.accounts.len()
        invariant
            i <= ledger.accounts@.len(),
            lv == ledger@,
            k == factor as int,
            k128 == factor,
            factor >= 1,
            ledger_wf(lv),
            new_accounts@.len() == i,
            forall|m: int|
                0 <= m < i ==> (#[trigger] new_accounts@[m])@ == scaled_accounts(lv.accounts, k)[m],
            new_total == k * sum_denom(lv.accounts.take(i as int), Denomination::Native),
        decreases ledger.accounts@.len() - i,
    {
        let acct = &ledger.accounts[i];
        proof {
            assert(lv.accounts[i as int] == ledger.accounts@[i as int]@);
            assert(account_wf(lv.accounts[i as int]));
        }
        let ghost bal_i = balance_in(lv.accounts[i as int].balances, Denomination::Native) as int;
        let (new_balances, native_scaled) = match rescale_account_entries(&acct.balances, k128) {
            Ok(p) => p,
            Err(e) => {
                proof {
                    lemma_balance_le_sum_denom(lv.accounts, Denomination::Native, i as int);
                    assert(k * sum_denom(lv.accounts, Denomination::Native) > u128::MAX)
                        by (nonlinear_arith)
                        requires
                            k >= 1,
                            k * bal_i > u128::MAX,
                            bal_i <= sum_denom(lv.accounts, Denomination::Native),
                    ;
                }
                return Err(e);
            },
        };
        proof {
            lemma_sum_denom_take_succ(lv.accounts, Denomination::Native, i as int);
        }
        new_total = match new_total.checked_add(native_scaled) {
            Some(t) => {
                proof {
                    assert(t == k * sum_denom(lv.accounts.take(i as int + 1), Denomination::Native))
                        by (nonlinear_arith)
                        requires
                            t == new_total + native_scaled,
                            new_total == k * sum_denom(
                                lv.accounts.take(i as int),
                                Denomination::Native,
                            ),
                            native_scaled == k * bal_i,
                            sum_denom(lv.accounts.take(i as int + 1), Denomination::Native)
                                == sum_denom(lv.accounts.take(i as int), Denomination::Native)
                                + bal_i,
                    ;
                }
                t
            },
            None => {
                proof {
                    lemma_sum_denom_take_le(lv.accounts, Denomination::Native, i as int + 1);
                    assert(k * sum_denom(lv.accounts, Denomination::Native) > u128::MAX)
                        by (nonlinear_arith)
                        requires
                            k >= 1,
                            new_total + native_scaled > u128::MAX,
                            new_total == k * sum_denom(
                                lv.accounts.take(i as int),
                                Denomination::Native,
                            ),
                            native_scaled == k * bal_i,
                            sum_denom(lv.accounts.take(i as int + 1), Denomination::Native)
                                == sum_denom(lv.accounts.take(i as int), Denomination::Native)
                                + bal_i,
                            sum_denom(lv.accounts.take(i as int + 1), Denomination::Native)
                                <= sum_denom(lv.accounts, Denomination::Native),
                    ;
                }
                return Err(MigrationError::ArithmeticOverflow);
            },
        };
        new_accounts.push(Account { address: acct.address, balances: new_balances });
        proof {
            assert(scaled_accounts(lv.accounts, k)[i as int] == AccountView {
                address: lv.accounts[i as int].address,
                balances: scaled_entries(lv.accounts[i as int].balances, k),
            });
        }
        i += 1;
    }
    proof {
        assert(lv.accounts.take(i as int) =~= lv.accounts);
        assert(views_of(new_accounts@) =~= scaled_accounts(lv.accounts, k));
        assert forall|p: int, q: int|
            0 <= p < q < scaled_accounts(lv.accounts, k).len() implies scaled_accounts(
            lv.accounts,
            k,
        )[p].address != scaled_accounts(lv.accounts, k)[q].address by {
            assert(scaled_accounts(lv.accounts, k)[p].address == lv.accounts[p].address);
            assert(scaled_accounts(lv.accounts, k)[q].address == lv.accounts[q].address);
        }
        assert forall|p: int|
            0 <= p < scaled_accounts(lv.accounts, k).len() implies account_wf(
            #[trigger] scaled_accounts(lv.accounts, k)[p],
        ) by {
            assert(account_wf(lv.accounts[p]));
            assert(forall|m: int|
                0 <= m < lv.accounts[p].balances.len()
                    ==> (#[trigger] scaled_entries(lv.accounts[p].balances, k)[m]).0
                    == lv.accounts[p].balances[m].0);
        }
    }
    if new_total > 0 {
        let old_total = lookup_balance(&ledger.total_supplies, Denomination::Native);
        let expected = match old_total.checked_mul(k128) {
            Some(e) => {
                proof {
                    assert(e == k * total_supply_of(lv, Denomination::Native))
                        by (nonlinear_arith)
                        requires
                            e == old_total * k128,
                            k == k128,
                            old_total == total_supply_of(lv, Denomination::Native),
                    ;
                }
                e
            },
            None => {
                proof {
                    assert(k * total_supply_of(lv, Denomination::Native) > u128::MAX)
                        by (nonlinear_arith)
                        requires
                            old_total * k128 > u128::MAX,
                            k == k128,
                            old_total == total_supply_of(lv, Denomination::Native),
                    ;
                }
                return Err(MigrationError::ArithmeticOverflow);
            },
        };
        if expected != new_total {
            return Err(MigrationError::LedgerInconsistency);
        }
        let mut new_supplies = copy_entries(&ledger.total_supplies);
        match find_denom_index(&ledger.total_supplies, Denomination::Native) {
            Some(j) => {
                new_supplies[j] = (Denomination::Native, new_total);
                proof {
                    assert(new_supplies@ == lv.total_supplies.update(
                        j as int,
                        (Denomination::Native, new_total),
                    ));
                    assert forall|m: int|
                        0 <= m < lv.total_supplies.len() implies new_supplies@[m]
                        == scaled_supplies(lv.total_supplies, native_sum_scaled(lv, k))[m] by {
                        if m != j as int {
                            assert(lv.total_supplies[m].0 != Denomination::Native);
                        }
                    }
                    assert(new_supplies@ =~= scaled_supplies(
                        lv.total_supplies,
                        native_sum_scaled(lv, k),
                    ));
                    assert forall|p: int, q: int|
                        0 <= p < q < new_supplies@.len() implies new_supplies@[p].0
                        != new_supplies@[q].0 by {
                        assert(new_supplies@[p].0 == lv.total_supplies[p].0);
                        assert(new_supplies@[q].0 == lv.total_supplies[q].0);
                    }
                }
                Ok(Ledger { accounts: new_accounts, total_supplies: new_supplies })
            },
            None => {
                proof {
                    lemma_balance_in_absent(lv.total_supplies, Denomination::Native);
                }
                Err(MigrationError::LedgerInconsistency)
            },
        }
    } else {
        let new_supplies = copy_entries(&ledger.total_supplies);
        Ok(Ledger { accounts: new_accounts, total_supplies: new_supplies })
    }
}

/// Rescaling an account's entries multiplies its native balance by `k` and
/// leaves every other denomination's balance unchanged.
pub proof fn lemma_balance_in_scaled_entries(e: Seq<(Denomination, u128)>, k: int)
    requires
        k >= 0,
    ensures
        k * balance_in(e, Denomination::Native) <= u128::MAX ==> balance_in(
            scaled_entries(e, k),
            Denomination::Native,
        ) == k * balance_in(e, Denomination::Native),
        forall|d: Denomination|
            d != Denomination::Native ==> #[trigger] balance_in(scaled_entries(e, k), d)
                == balance_in(e, d),
    decreases e.len(),
{
    if e.len() == 0 {
        assert(scaled_entries(e, k).len() == 0);
        assert(k * balance_in(e, Denomination::Native) == 0) by (nonlinear_arith)
            requires
                balance_in(e, Denomination::Native) == 0,
        ;
    } else {
        assert(scaled_entries(e, k)[0] == scaled_entry(e[0], k));
        assert(scaled_entries(e, k).drop_first() =~= scaled_entries(e.drop_first(), k));
        lemma_balance_in_scaled_entries(e.drop_first(), k);
        if e[0].0 == Denomination::Native {
            assert(e[0].1 * k == k * e[0].1) by (nonlinear_arith);
            assert(balance_in(scaled_entries(e, k), Denomination::Native) == scaled_entry(
                e[0],
                k,
            ).1);
        } else {
            assert(balance_in(scaled_entries(e, k), Denomination::Native) == balance_in(
                scaled_entries(e.drop_first(), k),
                Denomination::Native,
            ));
        }
        assert forall|d: Denomination|
            d != Denomination::Native implies #[trigger] balance_in(scaled_entries(e, k), d)
            == balance_in(e, d) by {
            if e[0].0 == d {
                assert(scaled_entry(e[0], k) == e[0]);
                assert(balance_in(scaled_entries(e, k), d) == e[0].1);
                assert(balance_in(e, d) == e[0].1);
            } else {
                assert(scaled_entry(e[0], k).0 == e[0].0);
                assert(balance_in(scaled_entries(e, k), d) == balance_in(
                    scaled_entries(e.drop_first(), k),
                    d,
                ));
                assert(balance_in(e, d) == balance_in(e.drop_first(), d));
            }
        }
    }
}

/// Per-account correctness of the rescale transform: for every address, the
/// rescaled ledger records exactly `k` times the address's old native
/// balance, and exactly its old balance in every other denomination.
pub proof fn lemma_scaled_balance_of(s: Seq<AccountView>, k: int, addr: Address)
    requires
        k >= 1,
        k * sum_denom(s, Denomination::Native) <= u128::MAX,
    ensures
        balance_of(scaled_accounts(s, k), addr, Denomination::Native) == k * balance_of(
            s,
            addr,
            Denomination::Native,
        ),
        forall|d: Denomination|
            d != Denomination::Native ==> #[trigger] balance_of(scaled_accounts(s, k), addr, d)
                == balance_of(s, addr, d),
    decreases s.len(),
{
    if s.len() == 0 {
        assert(scaled_accounts(s, k).len() == 0);
        assert(k * balance_of(s, addr, Denomination::Native) == 0) by (nonlinear_arith)
            requires
                balance_of(s, addr, Denomination::Native) == 0,
        ;
    } else {
        assert(scaled_accounts(s, k)[0] == AccountView {
            address: s[0].address,
            balances: scaled_entries(s[0].balances, k),
        });
        assert(scaled_accounts(s, k).drop_first() =~= scaled_accounts(s.drop_first(), k));
        if s[0].address == addr {
            lemma_balance_le_sum_denom(s, Denomination::Native, 0);
            assert(k * balance_in(s[0].balances, Denomination::Native) <= k * sum_denom(
                s,
                Denomination::Native,
            )) by (nonlinear_arith)
                requires
                    k >= 1,
                    balance_in(s[0].balances, Denomination::Native) <= sum_denom(
                        s,
                        Denomination::Native,
                    ),
            ;
            lemma_balance_in_scaled_entries(s[0].balances, k);
            assert(balance_of(scaled_accounts(s, k), addr, Denomination::Native) == balance_in(
                scaled_entries(s[0].balances, k),
                Denomination::Native,
            ));
        } else {
            assert(sum_denom(s.drop_first(), Denomination::Native) <= sum_denom(
                s,
                Denomination::Native,
            ));
            assert(k * sum_denom(s.drop_first(), Denomination::Native) <= k * sum_denom(
                s,
                Denomination::Native,
            )) by (nonlinear_arith)
                requires
                    k >= 1,
                    sum_denom(s.drop_first(), Denomination::Native) <= sum_denom(
                        s,
                        Denomination::Native,
                    ),
            ;
            lemma_scaled_balance_of(s.drop_first(), k, addr);
            assert(balance_of(scaled_accounts(s, k), addr, Denomination::Native) == balance_of(
                scaled_accounts(s.drop_first(), k),
                addr,
                Denomination::Native,
            ));
        }
        assert forall|d: Denomination|
            d != Denomination::Native implies #[trigger] balance_of(
            scaled_accounts(s, k),
            addr,
            d,
        ) == balance_of(s, addr, d) by {
            if s[0].address == addr {
                assert(balance_of(scaled_accounts(s, k), addr, d) == balance_in(
                    scaled_entries(s[0].balances, k),
                    d,
                ));
                assert(balance_of(s, addr, d) == balance_in(s[0].balances, d));
            } else {
                assert(balance_of(scaled_accounts(s, k), addr, d) == balance_of(
                    scaled_accounts(s.drop_first(), k),
                    addr,
                    d,
                ));
                assert(balance_of(s, addr, d) == balance_of(s.drop_first(), addr, d));
            }
        }
    }
}

/// The sum of all native balances after rescaling is `k` times the old sum.
pub proof fn lemma_sum_denom_scaled_accounts(s: Seq<AccountView>, k: int)
    requires
        k >= 1,
        k * sum_denom(s, Denomination::Native) <= u128::MAX,
    ensures
        sum_denom(scaled_accounts(s, k), Denomination::Native) == k * sum_denom(
            s,
            Denomination::Native,
        ),
    decreases s.len(),
{
    if s.len() == 0 {
        assert(scaled_accounts(s, k).len() == 0);
        assert(k * sum_denom(s, Denomination::Native) == 0) by (nonlinear_arith)
            requires
                sum_denom(s, Denomination::Native) == 0,
        ;
    } else {
        assert(scaled_accounts(s, k)[0] == AccountView {
            address: s[0].address,
            balances: scaled_entries(s[0].balances, k),
        });
        assert(scaled_accounts(s, k).drop_first() =~= scaled_accounts(s.drop_first(), k));
        let hb = balance_in(s[0].balances, Denomination::Native) as int;
        let rest = sum_denom(s.drop_first(), Denomination::Native) as int;
        assert(sum_denom(s, Denomination::Native) == hb + rest);
        assert(k * hb <= k * sum_denom(s, Denomination::Native) && k * rest <= k * sum_denom(
            s,
            Denomination::Native,
        ) && k * (hb + rest) == k * hb + k * rest) by (nonlinear_arith)
            requires
                k >= 1,
                hb >= 0,
                rest >= 0,
                sum_denom(s, Denomination::Native) == hb + rest,
        ;
        lemma_balance_in_scaled_entries(s[0].balances, k);
        lemma_sum_denom_scaled_accounts(s.drop_first(), k);
        assert(sum_denom(scaled_accounts(s, k), Denomination::Native) == balance_in(
            scaled_entries(s[0].balances, k),
            Denomination::Native,
        ) as nat + sum_denom(scaled_accounts(s.drop_first(), k), Denomination::Native));
        assert(balance_in(scaled_entries(s[0].balances, k), Denomination::Native) == k * hb);
        assert(sum_denom(scaled_accounts(s.drop_first(), k), Denomination::Native) == k * rest);
    }
}

/// Rewriting the native supply entry changes it and no other denomination.
pub proof fn lemma_balance_in_scaled_supplies(sup: Seq<(Denomination, u128)>, t: int)
    ensures
        has_denom(sup, Denomination::Native) ==> balance_in(
            scaled_supplies(sup, t),
            Denomination::Native,
        ) == t as u128,
        !has_denom(sup, Denomination::Native) ==> balance_in(
            scaled_supplies(sup, t),
            Denomination::Native,
        ) == 0,
        forall|d: Denomination|
            d != Denomination::Native ==> #[trigger] balance_in(scaled_supplies(sup, t), d)
                == balance_in(sup, d),
    decreases sup.len(),
{
    if sup.len() > 0 {
        assert(scaled_supplies(sup, t)[0] == (if sup[0].0 == Denomination::Native {
            (sup[0].0, t as u128)
        } else {
            sup[0]
        }));
        assert(scaled_supplies(sup, t).drop_first() =~= scaled_supplies(sup.drop_first(), t));
        lemma_balance_in_scaled_supplies(sup.drop_first(), t);
        assert(forall|m: int|
            0 <= m < sup.drop_first().len() ==> #[trigger] sup.drop_first()[m] == sup[m + 1]);
        if sup[0].0 == Denomination::Native {
            assert(has_denom(sup, Denomination::Native));
            assert(balance_in(scaled_supplies(sup, t), Denomination::Native) == t as u128);
        } else {
            assert(balance_in(scaled_supplies(sup, t), Denomination::Native) == balance_in(
                scaled_supplies(sup.drop_first(), t),
                Denomination::Native,
            ));
            if has_denom(sup, Denomination::Native) {
                let m = choose|m: int| 0 <= m < sup.len() && sup[m].0 == Denomination::Native;
                assert(sup.drop_first()[m - 1] == sup[m]);
                assert(has_denom(sup.drop_first(), Denomination::Native));
            } else {
                assert(!has_denom(sup.drop_first(), Denomination::Native));
            }
        }
        assert forall|d: Denomination|
            d != Denomination::Native implies #[trigger] balance_in(scaled_supplies(sup, t), d)
            == balance_in(sup, d) by {
            if sup[0].0 == d {
                assert(scaled_supplies(sup, t)[0] == sup[0]);
                assert(balance_in(scaled_supplies(sup, t), d) == sup[0].1);
                assert(balance_in(sup, d) == sup[0].1);
            } else {
                assert(scaled_supplies(sup, t)[0].0 == sup[0].0);
                assert(balance_in(scaled_supplies(sup, t), d) == balance_in(
                    scaled_supplies(sup.drop_first(), t),
                    d,
                ));
                assert(balance_in(sup, d) == balance_in(sup.drop_first(), d));
            }
        }
    }
}

/// Per-account correctness of a whole migration: whenever rescaling by `k`
/// does not overflow, every address reads exactly `k` times its old native
/// balance out of the rescaled ledger, and exactly its old balance in every
/// other denomination.
pub proof fn lemma_rescaled_ledger_per_account(lv: LedgerView, k: int, addr: Address)
    requires
        k >= 1,
        !rescale_overflows(lv, k),
    ensures
        balance_of(scaled_ledger(lv, k).accounts, addr, Denomination::Native) == k * balance_of(
            lv.accounts,
            addr,
            Denomination::Native,
        ),
        forall|d: Denomination|
            d != Denomination::Native ==> #[trigger] balance_of(
                scaled_ledger(lv, k).accounts,
                addr,
                d,
            ) == balance_of(lv.accounts, addr, d),
{
    lemma_scaled_balance_of(lv.accounts, k, addr);
}

/// Conservation of total supply: whenever a rescale by `k` commits — it
/// neither overflows nor uncovers a mismatch, and the rescaled ledger passes
/// the global invariant check — the recorded native total supply of the
/// rescaled ledger is exactly `k` times the old one.
pub proof fn lemma_rescale_conserves_supply(lv: LedgerView, k: int)
    requires
        k >= 1,
        !rescale_overflows(lv, k),
        !rescale_mismatch(lv, k),
        consistent(scaled_ledger(lv, k)),
    ensures
        total_supply_of(scaled_ledger(lv, k), Denomination::Native) == k * total_supply_of(
            lv,
            Denomination::Native,
        ),
{
    let nt = native_sum_scaled(lv, k);
    lemma_balance_in_scaled_supplies(lv.total_supplies, nt);
    if nt > 0 {
        assert(total_supply_of(lv, Denomination::Native) != 0) by {
            if balance_in(lv.total_supplies, Denomination::Native) == 0 {
                assert(k * total_supply_of(lv, Denomination::Native) == 0);
            }
        }
        assert(has_denom(lv.total_supplies, Denomination::Native)) by {
            if !has_denom(lv.total_supplies, Denomination::Native) {
                lemma_balance_in_absent(lv.total_supplies, Denomination::Native);
            }
        }
    } else {
        lemma_sum_denom_scaled_accounts(lv.accounts, k);
        assert(total_supply_of(scaled_ledger(lv, k), Denomination::Native) == total_supply_of(
            lv,
            Denomination::Native,
        ));
        assert(sum_denom(scaled_ledger(lv, k).accounts, Denomination::Native) == 0);
        assert(total_supply_of(lv, Denomination::Native) == 0);
    }
}

/// Order independence of enumeration: two ledgers that hold the same
/// accounts, in whatever order they are enumerated, rescale to the same
/// final native total supply.
pub proof fn lemma_rescale_order_independent(l1: LedgerView, l2: LedgerView, k: int)
    requires
        l1.accounts.to_multiset() == l2.accounts.to_multiset(),
    ensures
        native_sum_scaled(l1, k) == native_sum_scaled(l2, k),
{
    crate::ledger::lemma_sum_denom_permutation(l1.accounts, l2.accounts, Denomination::Native);
}

/// The global invariant check: for every denomination, the recorded total
/// supply must equal the total re-derived by summing all account balances.
/// Failure is fatal and never silently corrected.
pub fn check_invariants(ledger: &Ledger) -> (r: Result<(), MigrationError>)
    requires
        ledger_wf(ledger@),
    ensures
        r is Ok <==> consistent(ledger@),
        r is Err ==> r->Err_0 == MigrationError::InvariantViolation,
{
    let ghost lv = ledger@;
    let mut i: usize = 0;
    while i < ledger.total_supplies.len()
        invariant
            i <= ledger.total_supplies@.len(),
            lv == ledger@,
            ledger_wf(lv),
            forall|m: int|
                0 <= m < i ==> balance_in(lv.total_supplies, (#[trigger] lv.total_supplies[m]).0)
                    == sum_denom(lv.accounts, lv.total_supplies[m].0),
        decreases ledger.total_supplies@.len() - i,
    {
        let (d, t) = ledger.total_supplies[i];
        proof {
            lemma_balance_in_index(lv.total_supplies, d, i as int);
        }
        let s = match crate::ledger::sum_balances(&ledger.accounts, d) {
            Some(s) => s,
            None => {
                proof {
                    assert(total_supply_of(lv, d) == t);
                    assert(sum_denom(lv.accounts, d) > u128::MAX);
                    assert(total_supply_of(lv, d) != sum_denom(lv.accounts, d));
                }
                return Err(MigrationError::InvariantViolation);
            },
        };
        if s != t {
            proof {
                assert(total_supply_of(lv, d) == t);
                assert(sum_denom(lv.accounts, d) == s);
                assert(total_supply_of(lv, d) != sum_denom(lv.accounts, d));
            }
            return Err(MigrationError::InvariantViolation);
        }
        i += 1;
    }
    let mut a: usize = 0;
    while a < ledger.accounts.len()
        invariant
            a <= ledger.accounts@.len(),
            lv == ledger@,
            ledger_wf(lv),
            forall|m: int|
                0 <= m < lv.total_supplies.len() ==> balance_in(
                    lv.total_supplies,
                    (#[trigger] lv.total_supplies[m]).0,
                ) == sum_denom(lv.accounts, lv.total_supplies[m].0),
            forall|p: int, m: int|
                0 <= p < a && 0 <= m < (#[trigger] lv.accounts[p]).balances.len()
                    && (#[trigger] lv.accounts[p].balances[m]).1 > 0 ==> has_denom(
                    lv.total_supplies,
                    lv.accounts[p].balances[m].0,
                ),
        decreases ledger.accounts@.len() - a,
    {
        let acct = &ledger.accounts[a];
        proof {
            assert(lv.accounts[a as int] == ledger.accounts@[a as int]@);
        }
        let mut m: usize = 0;
        while m < acct.balances.len()
            invariant
                m <= acct.balances@.len(),
                a < lv.accounts.len(),
                acct.balances@ == lv.accounts[a as int].balances,
                lv == ledger@,
                ledger_wf(lv),
                forall|q: int|
                    0 <= q < m && (#[trigger] lv.accounts[a as int].balances[q]).1 > 0
                        ==> has_denom(lv.total_supplies, lv.accounts[a as int].balances[q].0),
            decreases acct.balances@.len() - m,
        {
            let (d, b) = acct.balances[m];
            if b > 0 {
                match find_denom_index(&ledger.total_supplies, d) {
                    Some(_) => {},
                    None => {
                        proof {
                            lemma_balance_in_index(lv.accounts[a as int].balances, d, m as int);
                            lemma_balance_le_sum_denom(lv.accounts, d, a as int);
                            lemma_balance_in_absent(lv.total_supplies, d);
                            assert(total_supply_of(lv, d) == 0);
                            assert(sum_denom(lv.accounts, d) >= b);
                        }
                        return Err(MigrationError::InvariantViolation);
                    },
                }
            }
            m += 1;
        }
        a += 1;
    }
    proof {
        assert forall|d: Denomination| #[trigger] total_supply_of(lv, d) == sum_denom(
            lv.accounts,
            d,
        ) by {
            if has_denom(lv.total_supplies, d) {
                let m = choose|m: int|
                    0 <= m < lv.total_supplies.len() && lv.total_supplies[m].0 == d;
                assert(balance_in(lv.total_supplies, lv.total_supplies[m].0) == sum_denom(
                    lv.accounts,
                    lv.total_supplies[m].0,
                ));
            } else {
                lemma_balance_in_absent(lv.total_supplies, d);
                assert forall|p: int|
                    0 <= p < lv.accounts.len() implies balance_in(
                    (#[trigger] lv.accounts[p]).balances,
                    d,
                ) == 0 by {
                    if has_denom(lv.accounts[p].balances, d) {
                        let q = choose|q: int|
                            0 <= q < lv.accounts[p].balances.len() && lv.accounts[p].balances[q].0
                                == d;
                        assert(lv.accounts[p].balances[q].1 == 0);
                        assert(account_wf(lv.accounts[p]));
                        lemma_balance_in_index(lv.accounts[p].balances, d, q);
                    } else {
                        lemma_balance_in_absent(lv.accounts[p].balances, d);
                    }
                }
                lemma_sum_denom_zero(lv.accounts, d);
            }
        }
    }
    Ok(())
}

/// The persisted runtime state the migration operates on: the recorded state
/// version, the per-module parameter store, and the account ledger.
pub struct RuntimeState {
    pub state_version: u32,
    pub parameters: ParameterStore,
    pub ledger: Ledger,
}

impl Runtime {
    /// The migration entry point, invoked at block-execution entry. When the
    /// persisted state version is not older than the compiled one, nothing
    /// is touched. Otherwise the target genesis is built, every module's
    /// parameters are overwritten in registry order, native balances are
    /// rescaled when the consensus scaling factor changes, and the global
    /// supply invariant gates the commit: any failure aborts with every
    /// write discarded.
    pub fn migrate_state(state: &mut RuntimeState, cfg: &BuildConfig) -> (r: Result<
        (),
        MigrationError,
    >)
        requires
            ledger_wf(old(state).ledger@),
        ensures
            old(state).state_version >= 4 ==> r is Ok && *final(state) == *old(state),
            r is Err ==> *final(state) == *old(state),
            old(state).state_version < 4 ==> ({
                let lv = old(state).ledger@;
                let k = 1_000_000_000int;
                let change = old(state).parameters.consensus.consensus_scaling_factor
                    != 1_000_000_000u64;
                &&& (r is Ok <==> (if change {
                    !rescale_overflows(lv, k) && !rescale_mismatch(lv, k) && consistent(
                        scaled_ledger(lv, k),
                    )
                } else {
                    consistent(lv)
                }))
                &&& (r == Err::<(), MigrationError>(MigrationError::ArithmeticOverflow) <==> change
                    && rescale_overflows(lv, k))
                &&& (r == Err::<(), MigrationError>(MigrationError::LedgerInconsistency) <==> change
                    && rescale_mismatch(lv, k))
                &&& (r is Ok ==> {
                    &&& final(state).state_version == 4
                    &&& is_target_parameter_store(
                        final(state).parameters,
                        cfg.version_has_prerelease,
                    )
                    &&& final(state).ledger@ == (if change {
                        scaled_ledger(lv, k)
                    } else {
                        lv
                    })
                    &&& ledger_wf(final(state).ledger@)
                    &&& consistent(final(state).ledger@)
                    &&& (change ==> total_supply_of(final(state).ledger@, Denomination::Native)
                        == k * total_supply_of(lv, Denomination::Native))
                })
            }),
    {
        let ghost lv = old(state).ledger@;
        let ghost k = 1_000_000_000int;
        let compiled = crate::state_version(cfg);
        if state.state_version >= compiled {
            return Ok(());
        }
        // Obtain the target genesis for the current code version.
        let genesis = Runtime::genesis_state(cfg);
        let target_factor = genesis.consensus.parameters.consensus_scaling_factor;
        // The balance rescale transform runs only when the consensus scaling
        // factor of the native denomination changes.
        let change = state.parameters.consensus.consensus_scaling_factor != target_factor;
        let new_ledger: Option<Ledger> = if change {
            match rescale_ledger(&state.ledger, target_factor) {
                Ok(l) => Some(l),
                Err(e) => {
                    return Err(e);
                },
            }
        } else {
            None
        };
        // The global invariant check gates the commit.
        let check = match &new_ledger {
            Some(l) => check_invariants(l),
            None => check_invariants(&state.ledger),
        };
        match check {
            Ok(()) => {},
            Err(e) => {
                return Err(e);
            },
        }
        // Commit: overwrite every module's parameters in registry order,
        // install the rescaled ledger, and persist the new state version.
        let ghost pre_commit = *state;
        let order = module_order();
        let mut idx: usize = 0;
        proof {
            assert(forall|j1: int, j2: int|
                0 <= j1 < j2 < module_order_spec().len() ==> module_order_spec()[j1]
                    != module_order_spec()[j2]);
        }
        while idx < order.len()
            invariant
                order@ == module_order_spec(),
                idx <= order@.len(),
                state.ledger == pre_commit.ledger,
                state.state_version == pre_commit.state_version,
                forall|j: int|
                    0 <= j < idx ==> module_params_target(
                        state.parameters,
                        #[trigger] order@[j],
                        cfg.version_has_prerelease,
                    ),
            decreases order@.len() - idx,
        {
            let ghost pre_params = state.parameters;
            let m = order[idx];
            apply_module_params(&mut state.parameters, cfg, m);
            proof {
                assert forall|j: int|
                    0 <= j < idx + 1 implies module_params_target(
                    state.parameters,
                    #[trigger] order@[j],
                    cfg.version_has_prerelease,
                ) by {
                    if j < idx {
                        assert(order@[j] != order@[idx as int]);
                        assert(module_params_eq(state.parameters, pre_params, order@[j]));
                    }
                }
            }
            idx += 1;
        }
        proof {
            assert(module_params_target(
                state.parameters,
                module_order_spec()[0],
                cfg.version_has_prerelease,
            ));
            assert(module_params_target(
                state.parameters,
                module_order_spec()[1],
                cfg.version_has_prerelease,
            ));
            assert(module_params_target(
                state.parameters,
                module_order_spec()[2],
                cfg.version_has_prerelease,
            ));
            assert(module_params_target(
                state.parameters,
                module_order_spec()[3],
                cfg.version_has_prerelease,
            ));
            assert(module_params_target(
                state.parameters,
                module_order_spec()[4],
                cfg.version_has_prerelease,
            ));
            assert(module_params_target(
                state.parameters,
                module_order_spec()[5],
                cfg.version_has_prerelease,
            ));
        }
        match new_ledger {
            Some(l) => {
                state.ledger = l;
            },
            None => {},
        }
        state.state_version = compiled;
        proof {
            if change {
                lemma_rescale_conserves_supply(lv, k);
            }
        }
        Ok(())
    }
}

} // verus!
