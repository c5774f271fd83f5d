//! Bills: priced line items grouped by tax rate.
//!
//! Money is held in cents, tax rates in basis points (a hundredth of a
//! percent: 19% is 1900), quantities in thousandths of a unit, so a line's
//! net value is in thousandths of a cent.  Quantities and prices are bounded
//! by the decimal parser, which keeps every line net small; the running net
//! total of a bill is therefore monotone and overflows only when the true
//! total does not fit the result type.

use vstd::prelude::*;
use crate::text::{spec_digits, spec_pad2, u64_digits, pad2, string_from_chars, chars_of};

verus! {

/// The largest quantity (thousandths) and unit price (cents) a line may
/// carry; what the document parsers produce always stays below it.
pub const MAX_LINE_VALUE: i64 = 1_000_000_000;

/// A product: name, an optional unit, a unit price in cents, and a tax rate
/// in basis points.
#[derive(Debug, Clone)]
pub struct Product {
    pub name: String,
    pub unit: Option<String>,
    pub price: i64,
    pub tax: u64,
}

/// One bill line: a positive quantity in thousandths of a unit, and its
/// product.
#[derive(Debug, Clone)]
pub struct BillItem {
    pub amount: i64,
    pub product: Product,
}

impl BillItem {
    pub open spec fn wf(self) -> bool {
        &&& 0 < self.amount <= MAX_LINE_VALUE
        &&& 0 <= self.product.price <= MAX_LINE_VALUE
    }
}

/// A bill: lines grouped by tax rate, groups non-empty and in strictly
/// ascending tax order.
#[derive(Debug)]
pub struct Bill {
    pub items_by_tax: Vec<(u64, Vec<BillItem>)>,
}

/// The lines of the group with the given tax rate (empty when absent).
pub open spec fn spec_group_of(gs: Seq<(u64, Vec<BillItem>)>, tax: u64) -> Seq<BillItem>
    decreases gs.len(),
{
    if gs.len() == 0 {
        Seq::empty()
    } else if gs[0].0 == tax {
        gs[0].1@
    } else {
        spec_group_of(gs.drop_first(), tax)
    }
}

/// The net value of one line, in thousandths of a cent.
pub open spec fn spec_line_net(it: BillItem) -> int {
    it.amount * it.product.price
}

pub open spec fn spec_items_net(items: Seq<BillItem>) -> int
    decreases items.len(),
{
    if items.len() == 0 {
        0
    } else {
        spec_line_net(items[0]) + spec_items_net(items.drop_first())
    }
}

pub open spec fn spec_groups_net(gs: Seq<(u64, Vec<BillItem>)>) -> int
    decreases gs.len(),
{
    if gs.len() == 0 {
        0
    } else {
        spec_items_net(gs[0].1@) + spec_groups_net(gs.drop_first())
    }
}

pub open spec fn wf_items(items: Seq<BillItem>, tax: u64) -> bool {
    forall|i: int|
        0 <= i < items.len() ==> (#[trigger] items[i]).wf() && items[i].product.tax == tax
}

impl Bill {
    pub open spec fn wf(self) -> bool {
        &&& forall|i: int, j: int|
            0 <= i < j < self.items_by_tax@.len() ==> (#[trigger] self.items_by_tax@[i]).0 < (
            #[trigger] self.items_by_tax@[j]).0
        &&& forall|i: int|
            0 <= i < self.items_by_tax@.len() ==> wf_items(
                (#[trigger] self.items_by_tax@[i]).1@,
                self.items_by_tax@[i].0,
            )
        &&& forall|i: int|
            0 <= i < self.items_by_tax@.len() ==> (#[trigger] self.items_by_tax@[i]).1@.len() > 0
    }

    pub open spec fn spec_group(self, tax: u64) -> Seq<BillItem> {
        spec_group_of(self.items_by_tax@, tax)
    }

    pub open spec fn spec_net(self) -> int {
        spec_groups_net(self.items_by_tax@)
    }

    /// An empty bill.
    pub fn new() -> (r: Bill)
        ensures
            r.wf(),
            r.items_by_tax@.len() == 0,
            forall|t: u64| r.spec_group(t) == Seq::<BillItem>::empty(),
    {
        Bill { items_by_tax: Vec::new() }
    }

    /// Append a line to the group of its tax rate, creating the group at its
    /// ordered position when new.  Groups of other tax rates are untouched.
    pub fn add_item(&mut self, amount: i64, product: Product)
        requires
            old(self).wf(),
            0 < amount <= MAX_LINE_VALUE,
            0 <= product.price <= MAX_LINE_VALUE,
        ensures
            final (self).wf(),
            final (self).spec_group(product.tax) == old(self).spec_group(product.tax).push(
                BillItem { amount, product },
            ),
            forall|t: u64|
                t != product.tax ==> final (self).spec_group(t) == old(self).spec_group(t),
            final (self).spec_net() == old(self).spec_net() + amount * product.price,
    {
        let tax = product.tax;
        let item = BillItem { amount, product };
        let ghost gs0 = self.items_by_tax@;
        let n = self.items_by_tax.len();
        let mut i: usize = 0;
        while i < n && self.items_by_tax[i].0 < tax
            invariant
                i <= n,
                n == self.items_by_tax@.len(),
                forall|j: int| 0 <= j < i ==> (#[trigger] self.items_by_tax@[j]).0 < tax,
            decreases n - i,
        {
            i = i + 1;
        }
        proof {
            lemma_group_prefix_absent(gs0, tax, i as int);
        }
        if i < n && self.items_by_tax[i].0 == tax {
            let mut g = self.items_by_tax.remove(i);
            g.1.push(item);
            self.items_by_tax.insert(i, g);
            proof {
                assert(self.items_by_tax@ =~= gs0.update(i as int, (tax, g.1)));
                lemma_group_at(gs0, tax, i as int);
                lemma_group_at(self.items_by_tax@, tax, i as int);
                assert forall|t: u64| t != tax implies spec_group_of(self.items_by_tax@, t)
                    == spec_group_of(gs0, t) by {
                    lemma_group_update_other(gs0, i as int, (tax, g.1), t);
                }
                lemma_items_net_push(gs0[i as int].1@, item);
                lemma_groups_net_update(gs0, i as int, (tax, g.1));
            }
        } else {
            let mut v: Vec<BillItem> = Vec::new();
            v.push(item);
            self.items_by_tax.insert(i, (tax, v));
            proof {
                assert(self.items_by_tax@ =~= gs0.insert(i as int, (tax, v)));
                lemma_group_at(self.items_by_tax@, tax, i as int);
                if i < gs0.len() {
                    assert(gs0[i as int].0 > tax);
                }
                lemma_group_all_absent(gs0, tax);
                assert(old(self).spec_group(tax) =~= Seq::<BillItem>::empty());
                assert(self.items_by_tax@[i as int].1@ =~= old(self).spec_group(tax).push(item));
                assert forall|t: u64| t != tax implies spec_group_of(self.items_by_tax@, t)
                    == spec_group_of(gs0, t) by {
                    lemma_group_insert_other(gs0, i as int, (tax, v), t);
                }
                lemma_items_net_push(Seq::<BillItem>::empty(), item);
                lemma_groups_net_insert(gs0, i as int, (tax, v));
                assert(spec_items_net(v@) == spec_line_net(item)) by {
                    assert(v@.drop_first() =~= Seq::<BillItem>::empty());
                }
                assert forall|x: int, y: int|
                    0 <= x < y < self.items_by_tax@.len() implies (
                #[trigger] self.items_by_tax@[x]).0 < (#[trigger] self.items_by_tax@[y]).0 by {
                    if y < i {
                    } else if x < i && y == i {
                    } else if x < i && y > i {
                        assert(gs0[x] == self.items_by_tax@[x]);
                        assert(gs0[y - 1] == self.items_by_tax@[y]);
                        if i <= y - 2 {
                            assert(gs0[i as int].0 <= gs0[y - 1].0);
                        }
                    } else if x == i {
                        assert(gs0[y - 1] == self.items_by_tax@[y]);
                        assert(gs0[i as int].0 <= gs0[y - 1].0);
                    } else {
                        assert(gs0[x - 1] == self.items_by_tax@[x]);
                        assert(gs0[y - 1] == self.items_by_tax@[y]);
                    }
                }
            }
        }
    }

    /// The net total, in thousandths of a cent; more than the result type
    /// can carry only when the true total itself does not fit.
    pub fn net_total(&self) -> (r: Option<i64>)
        requires
            self.wf(),
        ensures
            r matches Some(v) ==> v == self.spec_net() && 0 <= v,
            r is Some <==> self.spec_net() <= i64::MAX,
    {
        let ghost gs = self.items_by_tax@;
        let n = self.items_by_tax.len();
        let mut total: i64 = 0;
        let mut i: usize = 0;
        proof {
            lemma_groups_net_nonneg(gs);
            assert(gs.skip(0) =~= gs);
        }
        while i < n
            invariant
                self.wf(),
                i <= n,
                n == self.items_by_tax@.len(),
                gs == self.items_by_tax@,
                0 <= total,
                total + spec_groups_net(gs.skip(i as int)) == spec_groups_net(gs),
            decreases n - i,
        {
            proof {
                assert(gs.skip(i as int)[0] == gs[i as int]);
                assert(gs.skip(i as int).drop_first() =~= gs.skip(i as int + 1));
                lemma_groups_net_nonneg(gs.skip(i as int + 1));
            }
            let g = &self.items_by_tax[i];
            match add_items_net(total, &g.1) {
                Some(t) => {
                    total = t;
                },
                None => {
                    proof {
                        lemma_items_net_nonneg(g.1@);
                    }
                    return None;
                },
            }
            i = i + 1;
        }
        proof {
            assert(gs.skip(n as int) =~= Seq::<(u64, Vec<BillItem>)>::empty());
        }
        Some(total)
    }

    /// The net total of the group with the given tax rate, in thousandths of
    /// a cent.
    pub fn group_net(&self, tax: u64) -> (r: Option<i64>)
        requires
            self.wf(),
        ensures
            r matches Some(v) ==> v == spec_items_net(self.spec_group(tax)),
            r is Some <==> spec_items_net(self.spec_group(tax)) <= i64::MAX,
    {
        let ghost gs = self.items_by_tax@;
        let n = self.items_by_tax.len();
        let mut i: usize = 0;
        proof {
            assert(gs.skip(0) =~= gs);
        }
        while i < n
            invariant
                self.wf(),
                i <= n,
                n == self.items_by_tax@.len(),
                gs == self.items_by_tax@,
                spec_group_of(gs.skip(i as int), tax) == spec_group_of(gs, tax),
            decreases n - i,
        {
            proof {
                assert(gs.skip(i as int)[0] == gs[i as int]);
                assert(gs.skip(i as int).drop_first() =~= gs.skip(i as int + 1));
            }
            let g = &self.items_by_tax[i];
            if g.0 == tax {
                proof {
                    lemma_items_net_nonneg(g.1@);
                }
                return add_items_net(0, &g.1);
            }
            i = i + 1;
        }
        proof {
            assert(gs.skip(n as int) =~= Seq::<(u64, Vec<BillItem>)>::empty());
        }
        Some(0)
    }

    /// The tax rates present, in ascending order.
    pub fn taxes(&self) -> (r: Vec<u64>)
        ensures
            r@.len() == self.items_by_tax@.len(),
            forall|i: int|
                0 <= i < r@.len() ==> r@[i] == (#[trigger] self.items_by_tax@[i]).0,
    {
        let mut r: Vec<u64> = Vec::new();
        let n = self.items_by_tax.len();
        let mut i: usize = 0;
        while i < n
            invariant
                i <= n,
                n == self.items_by_tax@.len(),
                r@.len() == i,
                forall|j: int| 0 <= j < i ==> r@[j] == (#[trigger] self.items_by_tax@[j]).0,
            decreases n - i,
        {
            r.push(self.items_by_tax[i].0);
            i = i + 1;
        }
        r
    }
}

/// Add the net of every line of `items` to `acc`; the sum is monotone, so a
/// failure means the true value does not fit.
fn add_items_net(acc: i64, items: &Vec<BillItem>) -> (r: Option<i64>)
    requires
        0 <= acc,
        wf_items_any(items@),
    ensures
        r matches Some(v) ==> v == acc + spec_items_net(items@) && 0 <= v,
        r is Some <==> acc + spec_items_net(items@) <= i64::MAX,
{
    let ghost its = items@;
    let n = items.len();
    let mut total = acc;
    let mut i: usize = 0;
    proof {
        assert(its.skip(0) =~= its);
    }
    while i < n
        invariant
            0 <= total,
            i <= n,
            n == items@.len(),
            its == items@,
            wf_items_any(its),
            total + spec_items_net(its.skip(i as int)) == acc + spec_items_net(its),
        decreases n - i,
    {
        proof {
            assert(its.skip(i as int)[0] == its[i as int]);
            assert(its.skip(i as int).drop_first() =~= its.skip(i as int + 1));
            lemma_items_net_nonneg(its.skip(i as int + 1));
            assert(its[i as int].wf());
        }
        let it = &items[i];
        proof {
            assert(0 <= it.amount * it.product.price <= 1_000_000_000_000_000_000i64)
                by (nonlinear_arith)
                requires
                    0 < it.amount <= 1_000_000_000i64,
                    0 <= it.product.price <= 1_000_000_000i64,
            ;
        }
        let line = it.amount * it.product.price;
        match total.checked_add(line) {
            Some(t) => {
                total = t;
            },
            None => {
                return None;
            },
        }
        i = i + 1;
    }
    proof {
        assert(its.skip(n as int) =~= Seq::<BillItem>::empty());
    }
    Some(total)
}

/// Every line is well formed (whatever its tax).
pub open spec fn wf_items_any(items: Seq<BillItem>) -> bool {
    forall|i: int| 0 <= i < items.len() ==> (#[trigger] items[i]).wf()
}

proof fn lemma_items_net_nonneg(items: Seq<BillItem>)
    requires
        wf_items_any(items),
    ensures
        0 <= spec_items_net(items),
        items.len() > 0 ==> spec_items_net(items) >= spec_line_net(items[0]),
    decreases items.len(),
{
    if items.len() > 0 {
        assert(items[0].wf());
        assert(spec_line_net(items[0]) >= 0) by (nonlinear_arith)
            requires
                items[0].amount > 0,
                items[0].product.price >= 0,
        ;
        assert(wf_items_any(items.drop_first()));
        lemma_items_net_nonneg(items.drop_first());
    }
}

proof fn lemma_groups_net_nonneg(gs: Seq<(u64, Vec<BillItem>)>)
    requires
        forall|i: int| 0 <= i < gs.len() ==> wf_items_any((#[trigger] gs[i]).1@),
    ensures
        0 <= spec_groups_net(gs),
    decreases gs.len(),
{
    if gs.len() > 0 {
        lemma_items_net_nonneg(gs[0].1@);
        assert(forall|i: int|
            0 <= i < gs.len() - 1 ==> wf_items_any((#[trigger] gs.drop_first()[i]).1@));
        lemma_groups_net_nonneg(gs.drop_first());
    }
}

proof fn lemma_group_prefix_absent(gs: Seq<(u64, Vec<BillItem>)>, tax: u64, i: int)
    requires
        0 <= i <= gs.len(),
        forall|j: int| 0 <= j < i ==> (#[trigger] gs[j]).0 != tax,
    ensures
        spec_group_of(gs, tax) == spec_group_of(gs.skip(i), tax),
    decreases i,
{
    if i > 0 {
        assert(gs[0].0 != tax);
        assert(gs.drop_first().skip(i - 1) =~= gs.skip(i));
        lemma_group_prefix_absent(gs.drop_first(), tax, i - 1);
    } else {
        assert(gs.skip(0) =~= gs);
    }
}

proof fn lemma_group_at(gs: Seq<(u64, Vec<BillItem>)>, tax: u64, i: int)
    requires
        0 <= i < gs.len(),
        gs[i].0 == tax,
        forall|j: int| 0 <= j < i ==> (#[trigger] gs[j]).0 != tax,
    ensures
        spec_group_of(gs, tax) == gs[i].1@,
    decreases i,
{
    if i > 0 {
        assert(forall|j: int|
            0 <= j < i - 1 ==> (#[trigger] gs.drop_first()[j]).0 == gs[j + 1].0);
        lemma_group_at(gs.drop_first(), tax, i - 1);
    }
}

proof fn lemma_group_all_absent(gs: Seq<(u64, Vec<BillItem>)>, tax: u64)
    requires
        forall|j: int| 0 <= j < gs.len() ==> (#[trigger] gs[j]).0 != tax,
    ensures
        spec_group_of(gs, tax) == Seq::<BillItem>::empty(),
    decreases gs.len(),
{
    if gs.len() > 0 {
        lemma_group_all_absent(gs.drop_first(), tax);
    }
}

proof fn lemma_group_insert_other(gs: Seq<(u64, Vec<BillItem>)>, i: int, g: (u64, Vec<BillItem>), t: u64)
    requires
        0 <= i <= gs.len(),
        g.0 != t,
    ensures
        spec_group_of(gs.insert(i, g), t) == spec_group_of(gs, t),
    decreases i,
{
    if i == 0 {
        assert(gs.insert(0, g)[0] == g);
        assert(gs.insert(0, g).drop_first() =~= gs);
    } else {
        assert(gs.insert(i, g)[0] == gs[0]);
        assert(gs.insert(i, g).drop_first() =~= gs.drop_first().insert(i - 1, g));
        lemma_group_insert_other(gs.drop_first(), i - 1, g, t);
    }
}

proof fn lemma_group_update_other(gs: Seq<(u64, Vec<BillItem>)>, i: int, g: (u64, Vec<BillItem>), t: u64)
    requires
        0 <= i < gs.len(),
        g.0 != t,
        gs[i].0 == g.0,
    ensures
        spec_group_of(gs.update(i, g), t) == spec_group_of(gs, t),
    decreases i,
{
    if i == 0 {
        assert(gs.update(0, g)[0] == g);
        assert(gs.update(0, g).drop_first() =~= gs.drop_first());
    } else {
        assert(gs.update(i, g)[0] == gs[0]);
        assert(gs.update(i, g).drop_first() =~= gs.drop_first().update(i - 1, g));
        lemma_group_update_other(gs.drop_first(), i - 1, g, t);
    }
}

/// Cents rendered as a decimal money string, `"d.dd"`.
pub open spec fn spec_money_string(cents: nat) -> Seq<char> {
    spec_digits(cents / 100) + seq!['.'] + spec_pad2(cents % 100)
}

pub fn money_string(cents: u64) -> (r: String)
    ensures
        r@ == spec_money_string(cents as nat),
{
    let mut v = u64_digits(cents / 100);
    v.push('.');
    let mut c = pad2(cents % 100);
    v.append(&mut c);
    proof {
        assert(v@ =~= spec_money_string(cents as nat));
    }
    string_from_chars(&v)
}

/// A tax rate in basis points rendered as the decimal fraction the documents
/// use: 1900 is `"0.19"` (hundredths of a percent are truncated).
pub open spec fn spec_tax_string(tax: nat) -> Seq<char> {
    spec_digits(tax / 10000) + seq!['.'] + spec_pad2((tax % 10000) / 100)
}

pub fn tax_string(tax: u64) -> (r: String)
    ensures
        r@ == spec_tax_string(tax as nat),
{
    let mut v = u64_digits(tax / 10000);
    v.push('.');
    let mut c = pad2((tax % 10000) / 100);
    v.append(&mut c);
    proof {
        assert(v@ =~= spec_tax_string(tax as nat));
    }
    string_from_chars(&v)
}

/// A quantity in thousandths rendered as the document writes it: whole
/// quantities without a fraction, others with three decimals.
pub open spec fn spec_amount_string(a: nat) -> Seq<char> {
    if a % 1000 == 0 {
        spec_digits(a / 1000)
    } else {
        spec_digits(a / 1000) + seq!['.'] + spec_pad3(a % 1000)
    }
}

pub open spec fn spec_pad3(n: nat) -> Seq<char> {
    if n < 10 {
        seq!['0', '0'] + spec_digits(n)
    } else if n < 100 {
        seq!['0'] + spec_digits(n)
    } else {
        spec_digits(n)
    }
}

pub fn amount_string(a: u64) -> (r: String)
    ensures
        r@ == spec_amount_string(a as nat),
{
    let mut v = u64_digits(a / 1000);
    if a % 1000 != 0 {
        v.push('.');
        let frac = a % 1000;
        if frac < 10 {
            v.push('0');
            v.push('0');
        } else if frac < 100 {
            v.push('0');
        }
        let mut f = u64_digits(frac);
        v.append(&mut f);
    }
    proof {
        assert(v@ =~= spec_amount_string(a as nat));
    }
    string_from_chars(&v)
}


/// The ghost-level content of a bill line: everything a contract needs to
/// say about it, as plain mathematical values.
pub struct BillItemView {
    pub amount: int,
    pub name: Seq<char>,
    pub unit: Option<Seq<char>>,
    pub price: int,
    pub tax: u64,
}

pub open spec fn item_view(it: BillItem) -> BillItemView {
    BillItemView {
        amount: it.amount as int,
        name: it.product.name@,
        unit: match it.product.unit {
            Some(u) => Some(u@),
            None => None,
        },
        price: it.product.price as int,
        tax: it.product.tax,
    }
}

pub open spec fn items_view(items: Seq<BillItem>) -> Seq<BillItemView> {
    items.map_values(|it: BillItem| item_view(it))
}

/// The views with the given tax rate, in order.
pub open spec fn views_with_tax(items: Seq<BillItemView>, t: u64) -> Seq<BillItemView>
    decreases items.len(),
{
    if items.len() == 0 {
        Seq::empty()
    } else {
        let p = views_with_tax(items.drop_last(), t);
        if items.last().tax == t {
            p.push(items.last())
        } else {
            p
        }
    }
}


proof fn lemma_items_net_push(items: Seq<BillItem>, x: BillItem)
    ensures
        spec_items_net(items.push(x)) == spec_items_net(items) + spec_line_net(x),
    decreases items.len(),
{
    assert(items.push(x).len() == items.len() + 1);
    assert(spec_items_net(items.push(x)) == spec_line_net(items.push(x)[0]) + spec_items_net(
        items.push(x).drop_first(),
    ));
    if items.len() == 0 {
        assert(items.push(x)[0] == x);
        assert(items.push(x).drop_first() =~= Seq::<BillItem>::empty());
    } else {
        assert(items.push(x).drop_first() =~= items.drop_first().push(x));
        assert(items.push(x)[0] == items[0]);
        lemma_items_net_push(items.drop_first(), x);
    }
}

proof fn lemma_groups_net_insert(gs: Seq<(u64, Vec<BillItem>)>, i: int, g: (u64, Vec<BillItem>))
    requires
        0 <= i <= gs.len(),
    ensures
        spec_groups_net(gs.insert(i, g)) == spec_groups_net(gs) + spec_items_net(g.1@),
    decreases i,
{
    if i == 0 {
        assert(gs.insert(0, g)[0] == g);
        assert(gs.insert(0, g).drop_first() =~= gs);
    } else {
        assert(gs.insert(i, g)[0] == gs[0]);
        assert(gs.insert(i, g).drop_first() =~= gs.drop_first().insert(i - 1, g));
        lemma_groups_net_insert(gs.drop_first(), i - 1, g);
    }
}

proof fn lemma_groups_net_update(gs: Seq<(u64, Vec<BillItem>)>, i: int, g: (u64, Vec<BillItem>))
    requires
        0 <= i < gs.len(),
    ensures
        spec_groups_net(gs.update(i, g)) == spec_groups_net(gs) - spec_items_net(gs[i].1@)
            + spec_items_net(g.1@),
    decreases i,
{
    if i == 0 {
        assert(gs.update(0, g)[0] == g);
        assert(gs.update(0, g).drop_first() =~= gs.drop_first());
    } else {
        assert(gs.update(i, g)[0] == gs[0]);
        assert(gs.update(i, g).drop_first() =~= gs.drop_first().update(i - 1, g));
        lemma_groups_net_update(gs.drop_first(), i - 1, g);
    }
}

/// The net value of a sequence of line views, in thousandths of a cent.
pub open spec fn views_net(vs: Seq<BillItemView>) -> int
    decreases vs.len(),
{
    if vs.len() == 0 {
        0
    } else {
        views_net(vs.drop_last()) + vs.last().amount * vs.last().price
    }
}


/// Which of the two parallel bills is meant.
#[derive(Debug, Clone, Copy, PartialEq, Eq, Structural)]
pub enum BillType {
    Offer,
    Invoice,
}

/// One line of the semicolon-separated rendering: index, name, quantity,
/// unit price, tax rate, line total (net, in cents, truncated).
pub open spec fn spec_csv_line(idx: nat, it: BillItem) -> Seq<char> {
    spec_digits(idx) + ";"@ + it.product.name@ + ";"@ + spec_amount_string(it.amount as nat) + ";"@
        + spec_money_string(it.product.price as nat) + ";"@ + spec_tax_string(it.product.tax as nat)
        + ";"@ + spec_money_string(((it.amount * it.product.price) / 1000) as nat) + "\n"@
}

pub open spec fn spec_csv_items(items: Seq<BillItem>, idx: nat) -> Seq<char>
    decreases items.len(),
{
    if items.len() == 0 {
        Seq::empty()
    } else {
        spec_csv_line(idx, items[0]) + spec_csv_items(items.drop_first(), idx + 1)
    }
}

pub open spec fn spec_csv_groups(gs: Seq<(u64, Vec<BillItem>)>) -> Seq<char>
    decreases gs.len(),
{
    if gs.len() == 0 {
        Seq::empty()
    } else {
        spec_csv_items(gs[0].1@, 0) + spec_csv_groups(gs.drop_first())
    }
}

pub open spec fn spec_csv_header() -> Seq<char> {
    "#;Bezeichnung;Menge;EP;Steuer;Preis\n"@
}

/// The whole bill rendered: header, then each tax group's lines in group
/// order, indices restarting per group.
pub open spec fn spec_csv_bill(b: Bill) -> Seq<char> {
    spec_csv_header() + spec_csv_groups(b.items_by_tax@)
}

fn csv_items_from(items: &Vec<BillItem>, j: usize, idx: u64) -> (r: Vec<char>)
    requires
        j <= items@.len(),
        idx + items@.len() - j <= u64::MAX,
        wf_items_any(items@),
    ensures
        r@ == spec_csv_items(items@.skip(j as int), idx as nat),
    decreases items@.len() - j,
{
    let ghost s = items@.skip(j as int);
    if j == items.len() {
        proof {
            assert(s =~= Seq::<BillItem>::empty());
        }
        Vec::new()
    } else {
        proof {
            assert(s[0] == items@[j as int]);
            assert(s.drop_first() =~= items@.skip(j as int + 1));
            assert(items@[j as int].wf());
        }
        let it = &items[j];
        let mut out = u64_digits(idx);
        out.push(';');
        let mut name = chars_of(it.product.name.as_str());
        out.append(&mut name);
        out.push(';');
        let mut am = chars_of(amount_string(it.amount as u64).as_str());
        out.append(&mut am);
        out.push(';');
        let mut pr = chars_of(money_string(it.product.price as u64).as_str());
        out.append(&mut pr);
        out.push(';');
        let mut tx = chars_of(tax_string(it.product.tax).as_str());
        out.append(&mut tx);
        out.push(';');
        proof {
            assert(0 <= it.amount * it.product.price <= 1_000_000_000_000_000_000i64)
                by (nonlinear_arith)
                requires
                    0 < it.amount <= 1_000_000_000i64,
                    0 <= it.product.price <= 1_000_000_000i64,
            ;
        }
        let total_cents = ((it.amount * it.product.price) as u64) / 1000;
        let mut tc = chars_of(money_string(total_cents).as_str());
        out.append(&mut tc);
        out.push('\n');
        proof {
            reveal_strlit(";");
            reveal_strlit("\n");
            assert(";"@ =~= seq![';']);
            assert("\n"@ =~= seq!['\n']);
            assert(out@ =~= spec_csv_line(idx as nat, *it));
        }
        let mut rest = csv_items_from(items, j + 1, idx + 1);
        out.append(&mut rest);
        proof {
            assert(out@ =~= spec_csv_items(s, idx as nat));
        }
        out
    }
}

fn csv_groups_from(gs: &Vec<(u64, Vec<BillItem>)>, j: usize) -> (r: Vec<char>)
    requires
        j <= gs@.len(),
        forall|i: int| 0 <= i < gs@.len() ==> wf_items_any((#[trigger] gs@[i]).1@),
    ensures
        r@ == spec_csv_groups(gs@.skip(j as int)),
    decreases gs@.len() - j,
{
    let ghost s = gs@.skip(j as int);
    if j == gs.len() {
        proof {
            assert(s =~= Seq::<(u64, Vec<BillItem>)>::empty());
        }
        Vec::new()
    } else {
        proof {
            assert(s[0] == gs@[j as int]);
            assert(s.drop_first() =~= gs@.skip(j as int + 1));
        }
        let g = &gs[j];
        let items = &g.1;
        let ln = items.len();
        proof {
            assert(items@.skip(0) =~= items@);
            assert(items@.len() == ln);
        }
        let mut out = csv_items_from(items, 0, 0);
        let mut rest = csv_groups_from(gs, j + 1);
        out.append(&mut rest);
        proof {
            assert(out@ =~= spec_csv_groups(s));
        }
        out
    }
}

impl Bill {
    /// The bill rendered as semicolon-separated lines, one per item, grouped
    /// by tax rate.
    pub fn to_csv(&self) -> (r: String)
        requires
            self.wf(),
        ensures
            r@ == spec_csv_bill(*self),
    {
        let mut out = chars_of("#;Bezeichnung;Menge;EP;Steuer;Preis\n");
        proof {
            assert(self.items_by_tax@.skip(0) =~= self.items_by_tax@);
            assert forall|i: int|
                0 <= i < self.items_by_tax@.len() implies wf_items_any(
                (#[trigger] self.items_by_tax@[i]).1@,
            ) by {
                assert(wf_items(self.items_by_tax@[i].1@, self.items_by_tax@[i].0));
            }
        }
        let mut rest = csv_groups_from(&self.items_by_tax, 0);
        out.append(&mut rest);
        proof {
            assert(out@ =~= spec_csv_bill(*self));
        }
        string_from_chars(&out)
    }
}

} // verus!
