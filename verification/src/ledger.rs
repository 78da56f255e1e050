//! The budget ledger of the funds tooltip: daily incomes or expenses summed
//! per category, the categories in alphabetical order.
use crate::funds::FundsAmount;
use vstd::prelude::*;

verus! {

/// `a` comes before `b` in the order of `String`: character by character, a
/// proper prefix first.
pub open spec fn chars_lt(a: Seq<char>, b: Seq<char>) -> bool
    decreases a.len(),
{
    if a.len() == 0 {
        b.len() > 0
    } else if b.len() == 0 {
        false
    } else if a[0] < b[0] {
        true
    } else if a[0] > b[0] {
        false
    } else {
        chars_lt(a.drop_first(), b.drop_first())
    }
}

/// Of two different strings, one comes before the other.
pub proof fn lemma_chars_lt_total(a: Seq<char>, b: Seq<char>)
    requires
        a != b,
    ensures
        chars_lt(a, b) || chars_lt(b, a),
    decreases a.len(),
{
    if a.len() > 0 && b.len() > 0 && a[0] == b[0] {
        if a.drop_first() == b.drop_first() {
            assert(a =~= seq![a[0]] + a.drop_first());
            assert(b =~= seq![b[0]] + b.drop_first());
        }
        lemma_chars_lt_total(a.drop_first(), b.drop_first());
    } else if a.len() == 0 && b.len() == 0 {
        assert(a =~= b);
    }
}

/// Dropping a common prefix does not change which string comes first.
proof fn lemma_chars_lt_skip(a: Seq<char>, b: Seq<char>, k: int)
    requires
        0 <= k <= a.len(),
        k <= b.len(),
        forall|j: int| 0 <= j < k ==> a[j] == b[j],
    ensures
        chars_lt(a, b) == chars_lt(a.skip(k), b.skip(k)),
    decreases k,
{
    if k > 0 {
        lemma_chars_lt_skip(a.drop_first(), b.drop_first(), k - 1);
        assert(a.drop_first().skip(k - 1) =~= a.skip(k));
        assert(b.drop_first().skip(k - 1) =~= b.skip(k));
    } else {
        assert(a.skip(0) =~= a);
        assert(b.skip(0) =~= b);
    }
}

/// Whether `a` comes before `b` in the order of `String`.
pub fn category_less(a: &String, b: &String) -> (r: bool)
    ensures
        r == chars_lt(a@, b@),
{
    let sa = a.as_str();
    let sb = b.as_str();
    let la = sa.unicode_len();
    let lb = sb.unicode_len();
    let mut k: usize = 0;
    while k < la && k < lb
        invariant
            sa@ == a@,
            sb@ == b@,
            la == sa@.len(),
            lb == sb@.len(),
            k <= la,
            k <= lb,
            forall|j: int| 0 <= j < k ==> sa@[j] == sb@[j],
        decreases la - k,
    {
        let ca = sa.get_char(k);
        let cb = sb.get_char(k);
        if ca != cb {
            let less = ca < cb;
            proof {
                lemma_chars_lt_skip(sa@, sb@, k as int);
                assert(sa@.skip(k as int).len() > 0);
                assert(sb@.skip(k as int).len() > 0);
                assert(sa@.skip(k as int)[0] == ca);
                assert(sb@.skip(k as int)[0] == cb);
                assert(chars_lt(sa@.skip(k as int), sb@.skip(k as int)) == less);
            }
            return less;
        }
        k += 1;
    }
    proof {
        lemma_chars_lt_skip(sa@, sb@, k as int);
        if k == la {
            assert(sa@.skip(k as int).len() == 0);
        } else {
            assert(sb@.skip(k as int).len() == 0);
        }
    }
    la < lb
}

/// A budget line: an amount per entry, a category, a number of entries.
pub type BudgetLine = (FundsAmount, String, usize);

/// What a budget line comes to (the entry count taken as an `i64`).
pub open spec fn line_amount(line: BudgetLine) -> int {
    line.0 * (line.2 as i64)
}

/// The total of the budget lines of category `c`.
pub open spec fn category_funds(lines: Seq<BudgetLine>, c: Seq<char>) -> int
    decreases lines.len(),
{
    if lines.len() == 0 {
        0
    } else {
        category_funds(lines.drop_last(), c) + if lines.last().1@ == c {
            line_amount(lines.last())
        } else {
            0
        }
    }
}

/// The number of budget entries of category `c`.
pub open spec fn category_count(lines: Seq<BudgetLine>, c: Seq<char>) -> int
    decreases lines.len(),
{
    if lines.len() == 0 {
        0
    } else {
        category_count(lines.drop_last(), c) + if lines.last().1@ == c {
            lines.last().2 as int
        } else {
            0
        }
    }
}

/// Some budget line has category `c`.
pub open spec fn has_category(lines: Seq<BudgetLine>, c: Seq<char>) -> bool {
    exists|i: int| 0 <= i < lines.len() && #[trigger] lines[i].1@ == c
}

/// A category with no budget lines sums to nothing.
proof fn lemma_absent_category(lines: Seq<BudgetLine>, c: Seq<char>)
    requires
        !has_category(lines, c),
    ensures
        category_funds(lines, c) == 0,
        category_count(lines, c) == 0,
    decreases lines.len(),
{
    if lines.len() > 0 {
        assert(!has_category(lines.drop_last(), c)) by {
            if has_category(lines.drop_last(), c) {
                let i = choose|i: int|
                    0 <= i < lines.drop_last().len() && #[trigger] lines.drop_last()[i].1@ == c;
                assert(lines[i] == lines.drop_last()[i]);
            }
        }
        lemma_absent_category(lines.drop_last(), c);
        assert(lines[lines.len() - 1].1@ != c);
    }
}

/// One row of the ledger: a category with its total and its number of entries.
#[derive(Debug, Clone)]
pub struct LedgerRow {
    pub category: String,
    pub funds: FundsAmount,
    pub count: usize,
}

/// The running sums fit their types at every step of the summation.
pub open spec fn sums_fit(lines: Seq<BudgetLine>) -> bool {
    &&& forall|k: int| 0 <= k < lines.len() ==> i64::MIN <= #[trigger] line_amount(lines[k]) <= i64::MAX
    &&& forall|k: int, c: Seq<char>|
        0 <= k <= lines.len() ==> i64::MIN <= #[trigger] category_funds(lines.take(k), c)
            <= i64::MAX
    &&& forall|k: int, c: Seq<char>|
        0 <= k <= lines.len() ==> #[trigger] category_count(lines.take(k), c) <= usize::MAX
}

/// The ledger rows agree with the budget lines: one row per category that has
/// lines, in alphabetical order, each with the category's total and count.
pub open spec fn ledger_of(rows: Seq<LedgerRow>, lines: Seq<BudgetLine>) -> bool {
    &&& forall|i: int, j: int|
        0 <= i < j < rows.len() ==> rows[i].category@ != rows[j].category@
    &&& forall|i: int, j: int|
        0 <= i && j == i + 1 && j < rows.len() ==> chars_lt(
            #[trigger] rows[i].category@,
            #[trigger] rows[j].category@,
        )
    &&& forall|i: int|
        0 <= i < rows.len() ==> #[trigger] rows[i].funds == category_funds(lines, rows[i].category@)
            && rows[i].count == category_count(lines, rows[i].category@)
    &&& forall|c: Seq<char>|
        has_category(lines, c) <==> exists|i: int| 0 <= i < rows.len() && #[trigger] rows[i].category@ == c
}

/// Sums the budget lines per category, the categories in alphabetical order.
pub fn budget_ledger(lines: &Vec<BudgetLine>) -> (r: Vec<LedgerRow>)
    requires
        sums_fit(lines@),
    ensures
        ledger_of(r@, lines@),
{
    let mut rows: Vec<LedgerRow> = Vec::new();
    let mut i: usize = 0;
    proof {
        assert forall|c: Seq<char>| !has_category(lines@.take(0), c) by {}
    }
    while i < lines.len()
        invariant
            i <= lines.len(),
            sums_fit(lines@),
            ledger_of(rows@, lines@.take(i as int)),
        decreases lines.len() - i,
    {
        let ghost before = lines@.take(i as int);
        let ghost after = lines@.take(i as int + 1);
        assert(after.drop_last() =~= before);
        assert(after.last() == lines@[i as int]);
        let line = &lines[i];
        assert(i64::MIN <= line_amount(lines@[i as int]) <= i64::MAX);
        let amount: FundsAmount = line.0 * (line.2 as i64);
        let ghost c = line.1@;
        // Look for the row of this category.
        let mut found_at: Option<usize> = None;
        let mut q: usize = 0;
        while q < rows.len()
            invariant
                q <= rows.len(),
                c == line.1@,
                found_at matches Some(f) ==> f < q && rows@[f as int].category@ == c,
                found_at is None ==> forall|j: int| 0 <= j < q ==> #[trigger] rows@[j].category@ != c,
            decreases rows.len() - q,
        {
            if found_at.is_none() && rows[q].category == line.1 {
                found_at = Some(q);
            }
            q += 1;
        }
        let ghost old_rows = rows@;
        proof {
            assert forall|c2: Seq<char>| c2 != c implies category_funds(after, c2) == category_funds(
                before,
                c2,
            ) && category_count(after, c2) == category_count(before, c2) by {}
            assert(category_funds(after, c) == category_funds(before, c) + amount);
            assert(category_count(after, c) == category_count(before, c) + line.2);
        }
        if let Some(p) = found_at {
            assert(p < rows.len() && rows@[p as int].category@ == c);
            proof {
                assert(i64::MIN <= category_funds(after, c) <= i64::MAX);
                assert(category_count(after, c) <= usize::MAX);
            }
            let row = LedgerRow {
                category: rows[p].category.clone(),
                funds: rows[p].funds + amount,
                count: rows[p].count + line.2,
            };
            rows.set(p, row);
            proof {
                assert forall|j: int| 0 <= j < rows@.len() implies #[trigger] rows@[j].category@
                    == old_rows[j].category@ by {}
                assert forall|j: int| 0 <= j < rows@.len() implies #[trigger] rows@[j].funds
                    == category_funds(after, rows@[j].category@) && rows@[j].count == category_count(
                    after,
                    rows@[j].category@,
                ) by {
                    if j != p {
                        assert(old_rows[j].category@ != c);
                        assert(rows@[j] == old_rows[j]);
                        assert(old_rows[j].funds == category_funds(before, old_rows[j].category@));
                        assert(old_rows[j].count == category_count(before, old_rows[j].category@));
                    } else {
                        assert(old_rows[j].funds == category_funds(before, c));
                        assert(old_rows[j].count == category_count(before, c));
                        assert(rows@[j].funds == old_rows[j].funds + amount);
                        assert(rows@[j].count == old_rows[j].count + line.2);
                    }
                }
                assert forall|c2: Seq<char>| has_category(after, c2) <==> exists|j: int|
                    0 <= j < rows@.len() && #[trigger] rows@[j].category@ == c2 by {
                    if has_category(after, c2) && !has_category(before, c2) {
                        let k = choose|k: int| 0 <= k < after.len() && #[trigger] after[k].1@ == c2;
                        if k < before.len() {
                            assert(before[k] == after[k]);
                        }
                        assert(rows@[p as int].category@ == c2);
                    }
                    if has_category(before, c2) {
                        let k = choose|k: int| 0 <= k < before.len() && #[trigger] before[k].1@ == c2;
                        assert(after[k] == before[k]);
                        let j = choose|j: int| 0 <= j < old_rows.len() && #[trigger] old_rows[j].category@ == c2;
                        assert(rows@[j].category@ == c2);
                    }
                    if exists|j: int| 0 <= j < rows@.len() && #[trigger] rows@[j].category@ == c2 {
                        let j = choose|j: int| 0 <= j < rows@.len() && #[trigger] rows@[j].category@ == c2;
                        assert(old_rows[j].category@ == c2);
                        assert(has_category(before, c2));
                        let k = choose|k: int| 0 <= k < before.len() && #[trigger] before[k].1@ == c2;
                        assert(after[k] == before[k]);
                    }
                }
                assert forall|j: int, k: int| 0 <= j < k < rows@.len() implies rows@[j].category@
                    != rows@[k].category@ by {
                    assert(old_rows[j].category@ != old_rows[k].category@);
                }
                assert forall|j: int, k: int|
                    0 <= j && k == j + 1 && k < rows@.len() implies chars_lt(
                    #[trigger] rows@[j].category@,
                    #[trigger] rows@[k].category@,
                ) by {
                    assert(chars_lt(old_rows[j].category@, old_rows[k].category@));
                }
            }
        } else {
            // Find the place where the new category belongs.
            let mut p: usize = 0;
            loop
                invariant
                    p <= rows.len(),
                    c == line.1@,
                    forall|j: int| 0 <= j < p ==> !chars_lt(c, #[trigger] rows@[j].category@),
                ensures
                    p <= rows.len(),
                    forall|j: int| 0 <= j < p ==> !chars_lt(c, #[trigger] rows@[j].category@),
                    p < rows.len() ==> chars_lt(c, rows@[p as int].category@),
                decreases rows.len() - p,
            {
                if p == rows.len() {
                    break;
                }
                if category_less(&line.1, &rows[p].category) {
                    break;
                }
                p += 1;
            }
            proof {
                assert(!has_category(before, c)) by {
                    if has_category(before, c) {
                        let j = choose|j: int| 0 <= j < old_rows.len() && #[trigger] old_rows[j].category@ == c;
                    }
                }
                lemma_absent_category(before, c);
                assert(i64::MIN <= category_funds(after, c) <= i64::MAX);
                assert(category_count(after, c) <= usize::MAX);
            }
            let row = LedgerRow { category: line.1.clone(), funds: amount, count: line.2 };
            rows.insert(p, row);
            proof {
                assert(rows@ =~= old_rows.insert(p as int, row));
                if p > 0 {
                    let r = old_rows[p - 1].category@;
                    assert(r != c && !chars_lt(c, r));
                    lemma_chars_lt_total(c, r);
                }
                assert forall|j: int| 0 <= j < rows@.len() implies #[trigger] rows@[j].funds
                    == category_funds(after, rows@[j].category@) && rows@[j].count == category_count(
                    after,
                    rows@[j].category@,
                ) by {
                    if j < p {
                        assert(rows@[j] == old_rows[j]);
                        assert(old_rows[j].category@ != c);
                    } else if j > p {
                        assert(rows@[j] == old_rows[j - 1]);
                        assert(old_rows[j - 1].category@ != c) by {
                            if old_rows[j - 1].category@ == c {
                                assert(has_category(before, c));
                            }
                        }
                    }
                }
                assert forall|j: int, k: int| 0 <= j < k < rows@.len() implies rows@[j].category@
                    != rows@[k].category@ by {
                    if j != p && k != p {
                        let jj = if j < p { j } else { j - 1 };
                        let kk = if k < p { k } else { k - 1 };
                        assert(rows@[j] == old_rows[jj]);
                        assert(rows@[k] == old_rows[kk]);
                    } else if j == p {
                        assert(rows@[k] == old_rows[k - 1]);
                        if old_rows[k - 1].category@ == c {
                            assert(has_category(before, c));
                        }
                    } else {
                        assert(rows@[j] == old_rows[j]);
                        if old_rows[j].category@ == c {
                            assert(has_category(before, c));
                        }
                    }
                }
                assert forall|j: int, k: int|
                    0 <= j && k == j + 1 && k < rows@.len() implies chars_lt(
                    #[trigger] rows@[j].category@,
                    #[trigger] rows@[k].category@,
                ) by {
                    if k < p {
                        assert(rows@[j] == old_rows[j] && rows@[k] == old_rows[k]);
                        assert(chars_lt(old_rows[j].category@, old_rows[k].category@));
                    } else if j > p {
                        assert(rows@[j] == old_rows[j - 1] && rows@[k] == old_rows[k - 1]);
                        assert(chars_lt(old_rows[j - 1].category@, old_rows[k - 1].category@));
                    } else if j == p {
                        assert(rows@[k] == old_rows[p as int]);
                    } else {
                        assert(rows@[j] == old_rows[j]);
                    }
                }
                assert forall|c2: Seq<char>| has_category(after, c2) <==> exists|j: int|
                    0 <= j < rows@.len() && #[trigger] rows@[j].category@ == c2 by {
                    if has_category(after, c2) {
                        let k = choose|k: int| 0 <= k < after.len() && #[trigger] after[k].1@ == c2;
                        if k < before.len() {
                            assert(before[k] == after[k]);
                            assert(has_category(before, c2));
                            let j = choose|j: int| 0 <= j < old_rows.len() && #[trigger] old_rows[j].category@ == c2;
                            if j < p {
                                assert(rows@[j] == old_rows[j]);
                            } else {
                                assert(rows@[j + 1] == old_rows[j]);
                            }
                        } else {
                            assert(rows@[p as int].category@ == c2);
                        }
                    }
                    if exists|j: int| 0 <= j < rows@.len() && #[trigger] rows@[j].category@ == c2 {
                        let j = choose|j: int| 0 <= j < rows@.len() && #[trigger] rows@[j].category@ == c2;
                        if j == p {
                            assert(after[i as int].1@ == c2);
                        } else {
                            let jj = if j < p { j } else { j - 1 };
                            assert(rows@[j] == old_rows[jj]);
                            assert(has_category(before, c2));
                            let k = choose|k: int| 0 <= k < before.len() && #[trigger] before[k].1@ == c2;
                            assert(after[k] == before[k]);
                        }
                    }
                }
            }
        }
        i += 1;
    }
    assert(lines@.take(lines.len() as int) =~= lines@);
    rows
}

/// Whether a ledger row is shown in the tooltip: categories whose entries
/// number zero are left out.
pub fn ledger_row_shown(row: &LedgerRow) -> (r: bool)
    ensures
        r == (row.count != 0),
{
    row.count != 0
}

} // verus!
