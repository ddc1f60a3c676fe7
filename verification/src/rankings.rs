use vstd::prelude::*;
use vstd::arithmetic::mul::lemma_mul_inequality;
use vstd::multiset::Multiset;
use vstd::string::StringExecFns;

use crate::models::{MostRentedFilm, MostRentedFilmV, StaffRevenue, StaffRevenueV};
use crate::store::{Store, StoreV};
use crate::views::{
    lemma_count_two_indexes, lemma_dup_count, lemma_take_le_multiset, lemma_views_of_push,
    lemma_views_of_remove, lemma_views_of_take, lemma_views_of_update, views_of,
};

verus! {

broadcast use vstd::seq_lib::group_to_multiset_ensures;

/// Later entries never carry a larger rental count: the ranking order.
pub open spec fn sorted_by_count_desc(s: Seq<MostRentedFilmV>) -> bool {
    forall|i: int, j: int| 0 <= i <= j < s.len() ==> s[i].rental_count >= s[j].rental_count
}

/// Later entries never carry a larger revenue total: the revenue order.
pub open spec fn sorted_by_revenue_desc(s: Seq<StaffRevenueV>) -> bool {
    forall|i: int, j: int| 0 <= i <= j < s.len() ==> s[i].total_revenue >= s[j].total_revenue
}

impl StoreV {
    /// Title the rental row at `j` was for.
    pub open spec fn rental_title_at(self, j: int) -> Seq<char> {
        self.title_of_inventory(self.rentals[j].inventory_id)
    }

    /// How many of the first `n` rental rows were for this title.
    pub open spec fn count_prefix(self, title: Seq<char>, n: int) -> int
        decreases n,
    {
        if n <= 0 {
            0
        } else {
            self.count_prefix(title, n - 1) + if self.rental_title_at(n - 1) == title {
                1int
            } else {
                0int
            }
        }
    }

    /// How many rental rows were for this title: the grouped count.
    pub open spec fn rental_count_of(self, title: Seq<char>) -> int {
        self.count_prefix(title, self.rentals.len() as int)
    }

    /// Titles the first `n` rental rows were for.
    pub open spec fn rented_titles_prefix(self, n: int) -> Set<Seq<char>>
        decreases n,
    {
        if n <= 0 {
            Set::empty()
        } else {
            self.rented_titles_prefix(n - 1).insert(self.rental_title_at(n - 1))
        }
    }

    /// Titles any rental row was for: the grouping keys.
    pub open spec fn rented_titles(self) -> Set<Seq<char>> {
        self.rented_titles_prefix(self.rentals.len() as int)
    }

    /// Name of the staff member the payment row at `j` went through.
    pub open spec fn payment_name_at(self, j: int) -> Seq<char> {
        self.staff_name_of(self.payments[j].staff_id)
    }

    /// Amount of the first `n` payment rows handled under this staff
    /// name.
    pub open spec fn revenue_prefix(self, name: Seq<char>, n: int) -> int
        decreases n,
    {
        if n <= 0 {
            0
        } else {
            self.revenue_prefix(name, n - 1) + if self.payment_name_at(n - 1) == name {
                self.payments[n - 1].amount
            } else {
                0int
            }
        }
    }

    /// Total amount handled under this staff name: the grouped sum.
    pub open spec fn revenue_of(self, name: Seq<char>) -> int {
        self.revenue_prefix(name, self.payments.len() as int)
    }

    /// Staff names the first `n` payment rows went through.
    pub open spec fn payer_names_prefix(self, n: int) -> Set<Seq<char>>
        decreases n,
    {
        if n <= 0 {
            Set::empty()
        } else {
            self.payer_names_prefix(n - 1).insert(self.payment_name_at(n - 1))
        }
    }

    /// Staff names any payment row went through: the grouping keys.
    pub open spec fn payer_names(self) -> Set<Seq<char>> {
        self.payer_names_prefix(self.payments.len() as int)
    }
}

/// A count over a prefix is non-negative and at most the prefix length.
proof fn lemma_count_prefix_bounds(s: StoreV, title: Seq<char>, n: int)
    requires
        n >= 0,
    ensures
        0 <= s.count_prefix(title, n) <= n,
    decreases n,
{
    if n > 0 {
        lemma_count_prefix_bounds(s, title, n - 1);
    }
}

/// A title outside the prefix's key set was counted zero times.
proof fn lemma_count_zero_if_unrented(s: StoreV, title: Seq<char>, n: int)
    requires
        n >= 0,
        !s.rented_titles_prefix(n).contains(title),
    ensures
        s.count_prefix(title, n) == 0,
    decreases n,
{
    if n > 0 {
        assert(!s.rented_titles_prefix(n - 1).contains(title));
        assert(s.rental_title_at(n - 1) != title);
        lemma_count_zero_if_unrented(s, title, n - 1);
    }
}

/// The key set of a prefix is finite.
proof fn lemma_titles_finite(s: StoreV, n: int)
    requires
        n >= 0,
    ensures
        s.rented_titles_prefix(n).finite(),
    decreases n,
{
    if n > 0 {
        lemma_titles_finite(s, n - 1);
    }
}

/// A revenue sum over a prefix is non-negative and bounded by the prefix
/// length times the largest amount a row can hold.
proof fn lemma_revenue_prefix_bounds(s: StoreV, name: Seq<char>, n: int)
    requires
        n >= 0,
        n <= s.payments.len(),
        forall|i: int| 0 <= i < s.payments.len() ==> 0 <= #[trigger] s.payments[i].amount <= i64::MAX,
    ensures
        0 <= s.revenue_prefix(name, n) <= n * (i64::MAX as int),
    decreases n,
{
    if n > 0 {
        lemma_revenue_prefix_bounds(s, name, n - 1);
        assert(0 <= s.payments[n - 1].amount <= i64::MAX);
        assert(n * (i64::MAX as int) == (n - 1) * (i64::MAX as int) + i64::MAX) by (nonlinear_arith);
    }
}

/// A name outside the prefix's key set collected nothing.
proof fn lemma_revenue_zero_if_absent(s: StoreV, name: Seq<char>, n: int)
    requires
        n >= 0,
        !s.payer_names_prefix(n).contains(name),
    ensures
        s.revenue_prefix(name, n) == 0,
    decreases n,
{
    if n > 0 {
        assert(!s.payer_names_prefix(n - 1).contains(name));
        assert(s.payment_name_at(n - 1) != name);
        lemma_revenue_zero_if_absent(s, name, n - 1);
    }
}

/// The name set of a prefix is finite.
proof fn lemma_names_finite(s: StoreV, n: int)
    requires
        n >= 0,
    ensures
        s.payer_names_prefix(n).finite(),
    decreases n,
{
    if n > 0 {
        lemma_names_finite(s, n - 1);
    }
}

impl Store {
    /// Staff full name, first and last joined by a space, as the
    /// revenue report shows it.
    fn staff_name_for(&self, staff_id: i32) -> (nm: String)
        requires
            self@.wf(),
            self@.has_staff(staff_id as int),
        ensures
            nm@ == self@.staff_name_of(staff_id as int),
    {
        let n = self.staff.len();
        let mut i: usize = 0;
        while i < n
            invariant
                i <= n,
                n == self.staff.len(),
                self@.wf(),
                self@.has_staff(staff_id as int),
                forall|j: int| 0 <= j < i ==> self@.staff[j].staff_id != staff_id as int,
            decreases n - i,
        {
            if self.staff[i].staff_id == staff_id {
                proof {
                    self@.lemma_staff_index(i as int);
                }
                let mut nm = self.staff[i].first_name.clone();
                nm.append(" ");
                nm.append(self.staff[i].last_name.as_str());
                return nm;
            }
            i += 1;
        }
        proof {
            assert(!self@.has_staff(staff_id as int));
        }
        // unreachable: the caller guarantees the staff member exists
        assert(false);
        String::new()
    }

    /// The ten most rented films: rental rows grouped by film title,
    /// largest count first, at most ten entries. Each entry carries the
    /// exact count of its title, no title appears twice, and no title
    /// left out was rented more often than a listed one.
    pub fn get_most_rented_films(&self) -> (out: Vec<MostRentedFilm>)
        requires
            self@.wf(),
        ensures
            sorted_by_count_desc(views_of(out@)),
            out@.len() == if self@.rented_titles().len() <= 10 {
                self@.rented_titles().len()
            } else {
                10nat
            },
            forall|k: int|
                0 <= k < out@.len() ==> self@.rented_titles().contains(
                    (#[trigger] views_of(out@)[k]).film_title,
                ) && views_of(out@)[k].rental_count == self@.rental_count_of(
                    views_of(out@)[k].film_title,
                ),
            forall|a: int, b: int|
                #![trigger views_of(out@)[a], views_of(out@)[b]]
                0 <= a < b < out@.len() ==> views_of(out@)[a].film_title != views_of(
                    out@,
                )[b].film_title,
            forall|t: Seq<char>, k: int|
                #![trigger self@.rented_titles().contains(t), views_of(out@)[k]]
                self@.rented_titles().contains(t) && (forall|j: int|
                    0 <= j < out@.len() ==> (#[trigger] views_of(out@)[j]).film_title != t) && 0 <= k
                    < out@.len() ==> self@.rental_count_of(t) <= views_of(out@)[k].rental_count,
    {
        let acc = self.group_rentals_by_title();
        let ghost accv = views_of(acc@);
        let mut sorted = sort_films_desc(acc);
        let ghost full = views_of(sorted@);
        proof {
            assert(full.to_multiset().len() == accv.to_multiset().len());
            assert(full.len() == accv.len());
        }
        if sorted.len() > 10 {
            let ghost sorted0 = sorted@;
            sorted.truncate(10);
            proof {
                assert(sorted@ =~= sorted0.take(10));
                lemma_views_of_take(sorted0, 10);
            }
        }
        proof {
            let outv = views_of(sorted@);
            assert(outv =~= (if full.len() <= 10 {
                full
            } else {
                full.take(10)
            }));
            lemma_take_le_multiset(full, if full.len() <= 10 {
                full.len() as int
            } else {
                10
            });
            assert forall|k: int|
                0 <= k < outv.len() implies self@.rented_titles().contains(
                (#[trigger] outv[k]).film_title,
            ) && outv[k].rental_count == self@.rental_count_of(outv[k].film_title) by {
                let e = outv[k];
                assert(outv.contains(e));
                assert(outv.to_multiset().count(e) >= 1);
                assert(accv.to_multiset().count(e) >= 1);
                assert(accv.contains(e));
                let k0 = choose|k0: int| 0 <= k0 < accv.len() && accv[k0] == e;
            }
            assert forall|a: int, b: int|
                #![trigger outv[a], outv[b]]
                0 <= a < b < outv.len() implies outv[a].film_title != outv[b].film_title by {
                if outv[a].film_title == outv[b].film_title {
                    assert(self@.rented_titles().contains(outv[a].film_title));
                    assert(outv[a].rental_count == self@.rental_count_of(outv[a].film_title));
                    assert(outv[b].rental_count == self@.rental_count_of(outv[b].film_title));
                    assert(outv[a] == outv[b]);
                    lemma_dup_count(outv, a, b);
                    assert(accv.to_multiset().count(outv[a]) >= 2);
                    lemma_count_two_indexes(accv, outv[a]);
                    let (x, y): (int, int) = choose|x: int, y: int|
                        #![trigger accv[x], accv[y]]
                        0 <= x < accv.len() && 0 <= y < accv.len() && x != y && accv[x] == outv[a]
                            && accv[y] == outv[a];
                    assert(accv[x].film_title == accv[y].film_title);
                }
            }
            assert forall|t: Seq<char>, k: int|
                #![trigger self@.rented_titles().contains(t), outv[k]]
                self@.rented_titles().contains(t) && (forall|j: int|
                    0 <= j < outv.len() ==> (#[trigger] outv[j]).film_title != t) && 0 <= k
                    < outv.len() implies self@.rental_count_of(t) <= outv[k].rental_count by {
                let k0 = choose|k0: int|
                    0 <= k0 < accv.len() && (#[trigger] accv[k0]).film_title == t;
                let e = accv[k0];
                assert(accv.contains(e));
                assert(accv.to_multiset().count(e) >= 1);
                assert(full.to_multiset().count(e) >= 1);
                assert(full.contains(e));
                let m = choose|m: int| 0 <= m < full.len() && full[m] == e;
                if m < outv.len() {
                    assert(outv[m].film_title == t);
                } else {
                    assert(outv[k] == full[k]);
                    assert(full[k].rental_count >= full[m].rental_count);
                }
            }
        }
        sorted
    }

    /// Revenue per staff member: payment rows grouped by staff full
    /// name, largest total first. Each entry carries the exact sum for
    /// its name, no name appears twice, and every name a payment went
    /// through appears.
    pub fn get_staff_revenue(&self) -> (out: Vec<StaffRevenue>)
        requires
            self@.wf(),
        ensures
            sorted_by_revenue_desc(views_of(out@)),
            out@.len() == self@.payer_names().len(),
            forall|k: int|
                0 <= k < out@.len() ==> self@.payer_names().contains(
                    (#[trigger] views_of(out@)[k]).staff_name,
                ) && views_of(out@)[k].total_revenue == self@.revenue_of(
                    views_of(out@)[k].staff_name,
                ),
            forall|a: int, b: int|
                #![trigger views_of(out@)[a], views_of(out@)[b]]
                0 <= a < b < out@.len() ==> views_of(out@)[a].staff_name != views_of(
                    out@,
                )[b].staff_name,
            forall|t: Seq<char>|
                #![trigger self@.payer_names().contains(t)]
                self@.payer_names().contains(t) ==> exists|k: int|
                    0 <= k < out@.len() && (#[trigger] views_of(out@)[k]).staff_name == t,
    {
        let acc = self.group_payments_by_staff();
        let ghost accv = views_of(acc@);
        let sorted = sort_revenue_desc(acc);
        proof {
            let outv = views_of(sorted@);
            assert(outv.to_multiset().len() == accv.to_multiset().len());
            assert(outv.len() == accv.len());
            assert forall|k: int|
                0 <= k < outv.len() implies self@.payer_names().contains(
                (#[trigger] outv[k]).staff_name,
            ) && outv[k].total_revenue == self@.revenue_of(outv[k].staff_name) by {
                let e = outv[k];
                assert(outv.contains(e));
                assert(outv.to_multiset().count(e) >= 1);
                assert(accv.to_multiset().count(e) >= 1);
                assert(accv.contains(e));
                let k0 = choose|k0: int| 0 <= k0 < accv.len() && accv[k0] == e;
            }
            assert forall|a: int, b: int|
                #![trigger outv[a], outv[b]]
                0 <= a < b < outv.len() implies outv[a].staff_name != outv[b].staff_name by {
                if outv[a].staff_name == outv[b].staff_name {
                    assert(outv[a].total_revenue == self@.revenue_of(outv[a].staff_name));
                    assert(outv[b].total_revenue == self@.revenue_of(outv[b].staff_name));
                    assert(outv[a] == outv[b]);
                    lemma_dup_count(outv, a, b);
                    assert(accv.to_multiset().count(outv[a]) >= 2);
                    lemma_count_two_indexes(accv, outv[a]);
                    let (x, y): (int, int) = choose|x: int, y: int|
                        #![trigger accv[x], accv[y]]
                        0 <= x < accv.len() && 0 <= y < accv.len() && x != y && accv[x] == outv[a]
                            && accv[y] == outv[a];
                    assert(accv[x].staff_name == accv[y].staff_name);
                }
            }
            assert forall|t: Seq<char>|
                #![trigger self@.payer_names().contains(t)]
                self@.payer_names().contains(t) implies exists|k: int|
                0 <= k < outv.len() && (#[trigger] outv[k]).staff_name == t by {
                let k0 = choose|k0: int|
                    0 <= k0 < accv.len() && (#[trigger] accv[k0]).staff_name == t;
                let e = accv[k0];
                assert(accv.contains(e));
                assert(accv.to_multiset().count(e) >= 1);
                assert(outv.to_multiset().count(e) >= 1);
                assert(outv.contains(e));
                let m = choose|m: int| 0 <= m < outv.len() && outv[m] == e;
                assert(outv[m].staff_name == t);
            }
        }
        sorted
    }

    /// One pass over the payment table: one entry per staff name, the
    /// entry's total being the amount handled under that name so far.
    fn group_payments_by_staff(&self) -> (acc: Vec<StaffRevenue>)
        requires
            self@.wf(),
        ensures
            forall|k: int|
                0 <= k < acc@.len() ==> self@.payer_names().contains(
                    (#[trigger] views_of(acc@)[k]).staff_name,
                ) && views_of(acc@)[k].total_revenue == self@.revenue_of(
                    views_of(acc@)[k].staff_name,
                ),
            forall|t: Seq<char>|
                #![trigger self@.payer_names().contains(t)]
                self@.payer_names().contains(t) ==> exists|k: int|
                    0 <= k < acc@.len() && (#[trigger] views_of(acc@)[k]).staff_name == t,
            forall|a: int, b: int|
                #![trigger views_of(acc@)[a], views_of(acc@)[b]]
                0 <= a < b < acc@.len() ==> views_of(acc@)[a].staff_name != views_of(
                    acc@,
                )[b].staff_name,
            acc@.len() == self@.payer_names().len(),
    {
        let mut acc: Vec<StaffRevenue> = Vec::new();
        let n = self.payments.len();
        let mut i: usize = 0;
        proof {
            lemma_names_finite(self@, 0);
        }
        while i < n
            invariant
                i <= n,
                n == self.payments.len(),
                self@.wf(),
                forall|k: int|
                    0 <= k < acc@.len() ==> self@.payer_names_prefix(i as int).contains(
                        (#[trigger] views_of(acc@)[k]).staff_name,
                    ) && views_of(acc@)[k].total_revenue == self@.revenue_prefix(
                        views_of(acc@)[k].staff_name,
                        i as int,
                    ),
                forall|t: Seq<char>|
                    #![trigger self@.payer_names_prefix(i as int).contains(t)]
                    self@.payer_names_prefix(i as int).contains(t) ==> exists|k: int|
                        0 <= k < acc@.len() && (#[trigger] views_of(acc@)[k]).staff_name == t,
                forall|a: int, b: int|
                    #![trigger views_of(acc@)[a], views_of(acc@)[b]]
                    0 <= a < b < acc@.len() ==> views_of(acc@)[a].staff_name != views_of(
                        acc@,
                    )[b].staff_name,
                self@.payer_names_prefix(i as int).finite(),
                acc@.len() == self@.payer_names_prefix(i as int).len(),
            decreases n - i,
        {
            assert(self@.has_staff(self@.payments[i as int].staff_id));
            let nm = self.staff_name_for(self.payments[i].staff_id);
            assert(nm@ == self@.payment_name_at(i as int));
            let amt = self.payments[i].amount;
            let mut k: usize = 0;
            let mut found = false;
            let mut found_at: usize = 0;
            while k < acc.len() && !found
                invariant
                    k <= acc@.len(),
                    !found ==> forall|j: int|
                        0 <= j < k ==> (#[trigger] views_of(acc@)[j]).staff_name != nm@,
                    found ==> found_at < acc@.len() && views_of(acc@)[found_at as int].staff_name
                        == nm@,
                decreases acc@.len() - k + (if found {
                    0int
                } else {
                    1int
                }),
            {
                if acc[k].staff_name == nm {
                    found = true;
                    found_at = k;
                } else {
                    k += 1;
                }
            }
            let ghost pre = self@;
            let ghost acc0 = acc@;
            let ghost accv0 = views_of(acc@);
            let ghost ti = nm@;
            if found {
                let c = acc[found_at].total_revenue;
                proof {
                    lemma_revenue_prefix_bounds(pre, ti, i as int);
                    assert(c <= (i as int) * (i64::MAX as int));
                    lemma_mul_inequality(i as int + 1, pre.payments.len() as int, i64::MAX as int);
                    lemma_mul_inequality(pre.payments.len() as int, i64::MAX as int, i64::MAX as int);
                    assert((i64::MAX as int) * (i64::MAX as int) < i128::MAX as int);
                    assert(c + amt as int <= (i as int + 1) * (i64::MAX as int));
                }
                let entry = StaffRevenue { staff_name: nm, total_revenue: c + (amt as i128) };
                acc[found_at] = entry;
                proof {
                    lemma_views_of_update(acc0, found_at as int, entry);
                    let accv1 = views_of(acc@);
                    assert(accv1 =~= accv0.update(found_at as int, entry@));
                    assert(pre.payer_names_prefix(i as int).contains(ti));
                    assert(pre.payer_names_prefix(i as int + 1) =~= pre.payer_names_prefix(
                        i as int,
                    ));
                    assert forall|k2: int|
                        0 <= k2 < acc@.len() implies pre.payer_names_prefix(
                        i as int + 1,
                    ).contains((#[trigger] accv1[k2]).staff_name) && accv1[k2].total_revenue
                        == pre.revenue_prefix(accv1[k2].staff_name, i as int + 1) by {
                        if k2 == found_at as int {
                            assert(accv1[k2] == entry@);
                            assert(accv0[k2].staff_name == ti);
                            assert(pre.revenue_prefix(ti, i as int + 1) == pre.revenue_prefix(
                                ti,
                                i as int,
                            ) + pre.payments[i as int].amount);
                        } else {
                            assert(accv1[k2] == accv0[k2]);
                            assert(accv0[k2].staff_name != accv0[found_at as int].staff_name);
                            assert(pre.revenue_prefix(accv0[k2].staff_name, i as int + 1)
                                == pre.revenue_prefix(accv0[k2].staff_name, i as int));
                        }
                    }
                    assert forall|t: Seq<char>|
                        #![trigger pre.payer_names_prefix(i as int + 1).contains(t)]
                        pre.payer_names_prefix(i as int + 1).contains(t) implies exists|k2: int|
                        0 <= k2 < acc@.len() && (#[trigger] views_of(acc@)[k2]).staff_name
                            == t by {
                        assert(pre.payer_names_prefix(i as int).contains(t));
                        let k0 = choose|k0: int|
                            0 <= k0 < acc0.len() && (#[trigger] accv0[k0]).staff_name == t;
                        assert(accv1[k0].staff_name == t);
                    }
                }
            } else {
                assert(k == acc.len());
                let entry = StaffRevenue { staff_name: nm, total_revenue: amt as i128 };
                acc.push(entry);
                proof {
                    lemma_views_of_push(acc0, entry);
                    let accv1 = views_of(acc@);
                    assert(accv1 =~= accv0.push(entry@));
                    assert(!pre.payer_names_prefix(i as int).contains(ti)) by {
                        if pre.payer_names_prefix(i as int).contains(ti) {
                            let k0 = choose|k0: int|
                                0 <= k0 < acc0.len() && (#[trigger] accv0[k0]).staff_name == ti;
                        }
                    }
                    lemma_revenue_zero_if_absent(pre, ti, i as int);
                    assert(pre.revenue_prefix(ti, i as int + 1) == pre.payments[i as int].amount);
                    assert(pre.payer_names_prefix(i as int + 1) =~= pre.payer_names_prefix(
                        i as int,
                    ).insert(ti));
                    assert forall|k2: int|
                        0 <= k2 < acc@.len() implies pre.payer_names_prefix(
                        i as int + 1,
                    ).contains((#[trigger] accv1[k2]).staff_name) && accv1[k2].total_revenue
                        == pre.revenue_prefix(accv1[k2].staff_name, i as int + 1) by {
                        if k2 < acc0.len() {
                            assert(accv1[k2] == accv0[k2]);
                            assert(accv0[k2].staff_name != ti);
                            assert(pre.revenue_prefix(accv0[k2].staff_name, i as int + 1)
                                == pre.revenue_prefix(accv0[k2].staff_name, i as int));
                        } else {
                            assert(accv1[k2] == entry@);
                        }
                    }
                    assert forall|t: Seq<char>|
                        #![trigger pre.payer_names_prefix(i as int + 1).contains(t)]
                        pre.payer_names_prefix(i as int + 1).contains(t) implies exists|k2: int|
                        0 <= k2 < acc@.len() && (#[trigger] views_of(acc@)[k2]).staff_name
                            == t by {
                        if t == ti {
                            assert(accv1[acc0.len() as int].staff_name == t);
                        } else {
                            assert(pre.payer_names_prefix(i as int).contains(t));
                            let k0 = choose|k0: int|
                                0 <= k0 < acc0.len() && (#[trigger] accv0[k0]).staff_name == t;
                            assert(accv1[k0].staff_name == t);
                        }
                    }
                    assert forall|a: int, b: int|
                        #![trigger accv1[a], accv1[b]]
                        0 <= a < b < acc@.len() implies accv1[a].staff_name != accv1[
                        b
                    ].staff_name by {
                        if b < acc0.len() {
                            assert(accv0[a].staff_name != accv0[b].staff_name);
                        } else {
                            assert(accv0[a].staff_name != ti);
                        }
                    }
                }
            }
            i += 1;
        }
        acc
    }

    /// One pass over the rental table: one entry per rented title, the
    /// entry's count being how often the title was rented so far.
    fn group_rentals_by_title(&self) -> (acc: Vec<MostRentedFilm>)
        requires
            self@.wf(),
        ensures
            forall|k: int|
                0 <= k < acc@.len() ==> self@.rented_titles().contains(
                    (#[trigger] views_of(acc@)[k]).film_title,
                ) && views_of(acc@)[k].rental_count == self@.rental_count_of(
                    views_of(acc@)[k].film_title,
                ),
            forall|t: Seq<char>|
                #![trigger self@.rented_titles().contains(t)]
                self@.rented_titles().contains(t) ==> exists|k: int|
                    0 <= k < acc@.len() && (#[trigger] views_of(acc@)[k]).film_title == t,
            forall|a: int, b: int|
                #![trigger views_of(acc@)[a], views_of(acc@)[b]]
                0 <= a < b < acc@.len() ==> views_of(acc@)[a].film_title != views_of(
                    acc@,
                )[b].film_title,
            acc@.len() == self@.rented_titles().len(),
    {
        let mut acc: Vec<MostRentedFilm> = Vec::new();
        let n = self.rentals.len();
        let mut i: usize = 0;
        proof {
            lemma_titles_finite(self@, 0);
        }
        while i < n
            invariant
                i <= n,
                n == self.rentals.len(),
                self@.wf(),
                forall|k: int|
                    0 <= k < acc@.len() ==> self@.rented_titles_prefix(i as int).contains(
                        (#[trigger] views_of(acc@)[k]).film_title,
                    ) && views_of(acc@)[k].rental_count == self@.count_prefix(
                        views_of(acc@)[k].film_title,
                        i as int,
                    ),
                forall|t: Seq<char>|
                    #![trigger self@.rented_titles_prefix(i as int).contains(t)]
                    self@.rented_titles_prefix(i as int).contains(t) ==> exists|k: int|
                        0 <= k < acc@.len() && (#[trigger] views_of(acc@)[k]).film_title == t,
                forall|a: int, b: int|
                    #![trigger views_of(acc@)[a], views_of(acc@)[b]]
                    0 <= a < b < acc@.len() ==> views_of(acc@)[a].film_title != views_of(
                        acc@,
                    )[b].film_title,
                self@.rented_titles_prefix(i as int).finite(),
                acc@.len() == self@.rented_titles_prefix(i as int).len(),
            decreases n - i,
        {
            assert(self@.has_inventory(self@.rentals[i as int].inventory_id));
            let title = self.film_title_for_inventory(self.rentals[i].inventory_id);
            assert(title@ == self@.rental_title_at(i as int));
            let mut k: usize = 0;
            let mut found = false;
            let mut found_at: usize = 0;
            while k < acc.len() && !found
                invariant
                    k <= acc@.len(),
                    !found ==> forall|j: int|
                        0 <= j < k ==> (#[trigger] views_of(acc@)[j]).film_title != title@,
                    found ==> found_at < acc@.len() && views_of(acc@)[
                        found_at as int
                    ].film_title == title@,
                decreases acc@.len() - k + (if found {
                    0int
                } else {
                    1int
                }),
            {
                if acc[k].film_title == title {
                    found = true;
                    found_at = k;
                } else {
                    k += 1;
                }
            }
            let ghost pre = self@;
            let ghost acc0 = acc@;
            let ghost accv0 = views_of(acc@);
            let ghost ti = title@;
            if found {
                let c = acc[found_at].rental_count;
                proof {
                    lemma_count_prefix_bounds(pre, ti, i as int);
                    assert(c <= i as int);
                }
                let entry = MostRentedFilm { film_title: title, rental_count: c + 1 };
                acc[found_at] = entry;
                proof {
                    lemma_views_of_update(acc0, found_at as int, entry);
                    let accv1 = views_of(acc@);
                    assert(accv1 =~= accv0.update(found_at as int, entry@));
                    assert(pre.rented_titles_prefix(i as int).contains(ti));
                    assert(pre.rented_titles_prefix(i as int + 1) =~= pre.rented_titles_prefix(
                        i as int,
                    ));
                    assert forall|k2: int|
                        0 <= k2 < acc@.len() implies pre.rented_titles_prefix(
                        i as int + 1,
                    ).contains((#[trigger] accv1[k2]).film_title) && accv1[k2].rental_count
                        == pre.count_prefix(accv1[k2].film_title, i as int + 1) by {
                        if k2 == found_at as int {
                            assert(accv1[k2] == entry@);
                            assert(accv0[k2].film_title == ti);
                            assert(pre.count_prefix(ti, i as int + 1) == pre.count_prefix(
                                ti,
                                i as int,
                            ) + 1);
                        } else {
                            assert(accv1[k2] == accv0[k2]);
                            assert(accv0[k2].film_title != accv0[found_at as int].film_title);
                            assert(pre.count_prefix(accv0[k2].film_title, i as int + 1)
                                == pre.count_prefix(accv0[k2].film_title, i as int));
                        }
                    }
                    assert forall|t: Seq<char>|
                        #![trigger pre.rented_titles_prefix(i as int + 1).contains(t)]
                        pre.rented_titles_prefix(i as int + 1).contains(t) implies exists|k2: int|
                        0 <= k2 < acc@.len() && (#[trigger] views_of(acc@)[k2]).film_title
                            == t by {
                        assert(pre.rented_titles_prefix(i as int).contains(t));
                        let k0 = choose|k0: int|
                            0 <= k0 < acc0.len() && (#[trigger] accv0[k0]).film_title == t;
                        assert(accv1[k0].film_title == t);
                    }
                }
            } else {
                assert(k == acc.len());
                let entry = MostRentedFilm { film_title: title, rental_count: 1 };
                acc.push(entry);
                proof {
                    lemma_views_of_push(acc0, entry);
                    let accv1 = views_of(acc@);
                    assert(accv1 =~= accv0.push(entry@));
                    assert(!pre.rented_titles_prefix(i as int).contains(ti)) by {
                        if pre.rented_titles_prefix(i as int).contains(ti) {
                            let k0 = choose|k0: int|
                                0 <= k0 < acc0.len() && (#[trigger] accv0[k0]).film_title == ti;
                        }
                    }
                    lemma_count_zero_if_unrented(pre, ti, i as int);
                    assert(pre.count_prefix(ti, i as int + 1) == 1);
                    assert(pre.rented_titles_prefix(i as int + 1) =~= pre.rented_titles_prefix(
                        i as int,
                    ).insert(ti));
                    assert forall|k2: int|
                        0 <= k2 < acc@.len() implies pre.rented_titles_prefix(
                        i as int + 1,
                    ).contains((#[trigger] accv1[k2]).film_title) && accv1[k2].rental_count
                        == pre.count_prefix(accv1[k2].film_title, i as int + 1) by {
                        if k2 < acc0.len() {
                            assert(accv1[k2] == accv0[k2]);
                            assert(accv0[k2].film_title != ti);
                            assert(pre.count_prefix(accv0[k2].film_title, i as int + 1)
                                == pre.count_prefix(accv0[k2].film_title, i as int));
                        } else {
                            assert(accv1[k2] == entry@);
                        }
                    }
                    assert forall|t: Seq<char>|
                        #![trigger pre.rented_titles_prefix(i as int + 1).contains(t)]
                        pre.rented_titles_prefix(i as int + 1).contains(t) implies exists|k2: int|
                        0 <= k2 < acc@.len() && (#[trigger] views_of(acc@)[k2]).film_title
                            == t by {
                        if t == ti {
                            assert(accv1[acc0.len() as int].film_title == t);
                        } else {
                            assert(pre.rented_titles_prefix(i as int).contains(t));
                            let k0 = choose|k0: int|
                                0 <= k0 < acc0.len() && (#[trigger] accv0[k0]).film_title == t;
                            assert(accv1[k0].film_title == t);
                        }
                    }
                    assert forall|a: int, b: int|
                        #![trigger accv1[a], accv1[b]]
                        0 <= a < b < acc@.len() implies accv1[a].film_title != accv1[
                        b
                    ].film_title by {
                        if b < acc0.len() {
                            assert(accv0[a].film_title != accv0[b].film_title);
                        } else {
                            assert(accv0[a].film_title != ti);
                        }
                    }
                }
            }
            i += 1;
        }
        acc
    }
}

/// Sort ranking entries by descending count; the entries are kept, only
/// reordered.
fn sort_films_desc(v: Vec<MostRentedFilm>) -> (out: Vec<MostRentedFilm>)
    ensures
        views_of(out@).to_multiset() == views_of(v@).to_multiset(),
        sorted_by_count_desc(views_of(out@)),
{
    let mut rest = v;
    let ghost total = views_of(rest@).to_multiset();
    let mut out: Vec<MostRentedFilm> = Vec::new();
    proof {
        assert(views_of(out@).to_multiset().add(views_of(rest@).to_multiset()) =~= total);
    }
    while rest.len() > 0
        invariant
            views_of(out@).to_multiset().add(views_of(rest@).to_multiset()) == total,
            sorted_by_count_desc(views_of(out@)),
            forall|a: int, b: int|
                0 <= a < out@.len() && 0 <= b < rest@.len() ==> views_of(out@)[a].rental_count
                    >= views_of(rest@)[b].rental_count,
        decreases rest.len(),
    {
        let mut k: usize = 0;
        let mut m: usize = 1;
        while m < rest.len()
            invariant
                0 < rest@.len(),
                k < m <= rest@.len(),
                forall|j: int|
                    0 <= j < m ==> views_of(rest@)[k as int].rental_count >= views_of(
                        rest@,
                    )[j].rental_count,
            decreases rest@.len() - m,
        {
            if rest[m].rental_count > rest[k].rental_count {
                k = m;
            }
            m += 1;
        }
        let ghost rest0 = rest@;
        let ghost out0 = out@;
        let e = rest.remove(k);
        proof {
            lemma_views_of_remove(rest0, k as int);
            assert(views_of(rest@) =~= views_of(rest0).remove(k as int));
            assert(views_of(rest0).contains(views_of(rest0)[k as int]));
        }
        out.push(e);
        proof {
            lemma_views_of_push(out0, e);
            assert(views_of(out@) =~= views_of(out0).push(e@));
            assert(e@ == views_of(rest0)[k as int]);
            assert(views_of(out@).to_multiset() =~= views_of(out0).to_multiset().insert(e@));
            assert(views_of(rest@).to_multiset() =~= views_of(rest0).to_multiset().remove(e@));
            assert(views_of(out@).to_multiset().add(views_of(rest@).to_multiset()) =~= total);
        }
    }
    proof {
        assert(views_of(rest@).to_multiset() =~= Multiset::empty());
        assert(views_of(out@).to_multiset() =~= total);
    }
    out
}

/// Sort revenue entries by descending total; the entries are kept, only
/// reordered.
fn sort_revenue_desc(v: Vec<StaffRevenue>) -> (out: Vec<StaffRevenue>)
    ensures
        views_of(out@).to_multiset() == views_of(v@).to_multiset(),
        sorted_by_revenue_desc(views_of(out@)),
{
    let mut rest = v;
    let ghost total = views_of(rest@).to_multiset();
    let mut out: Vec<StaffRevenue> = Vec::new();
    proof {
        assert(views_of(out@).to_multiset().add(views_of(rest@).to_multiset()) =~= total);
    }
    while rest.len() > 0
        invariant
            views_of(out@).to_multiset().add(views_of(rest@).to_multiset()) == total,
            sorted_by_revenue_desc(views_of(out@)),
            forall|a: int, b: int|
                0 <= a < out@.len() && 0 <= b < rest@.len() ==> views_of(out@)[a].total_revenue
                    >= views_of(rest@)[b].total_revenue,
        decreases rest.len(),
    {
        let mut k: usize = 0;
        let mut m: usize = 1;
        while m < rest.len()
            invariant
                0 < rest@.len(),
                k < m <= rest@.len(),
                forall|j: int|
                    0 <= j < m ==> views_of(rest@)[k as int].total_revenue >= views_of(
                        rest@,
                    )[j].total_revenue,
            decreases rest@.len() - m,
        {
            if rest[m].total_revenue > rest[k].total_revenue {
                k = m;
            }
            m += 1;
        }
        let ghost rest0 = rest@;
        let ghost out0 = out@;
        let e = rest.remove(k);
        proof {
            lemma_views_of_remove(rest0, k as int);
            assert(views_of(rest@) =~= views_of(rest0).remove(k as int));
            assert(views_of(rest0).contains(views_of(rest0)[k as int]));
        }
        out.push(e);
        proof {
            lemma_views_of_push(out0, e);
            assert(views_of(out@) =~= views_of(out0).push(e@));
            assert(e@ == views_of(rest0)[k as int]);
            assert(views_of(out@).to_multiset() =~= views_of(out0).to_multiset().insert(e@));
            assert(views_of(rest@).to_multiset() =~= views_of(rest0).to_multiset().remove(e@));
            assert(views_of(out@).to_multiset().add(views_of(rest@).to_multiset()) =~= total);
        }
    }
    proof {
        assert(views_of(rest@).to_multiset() =~= Multiset::empty());
        assert(views_of(out@).to_multiset() =~= total);
    }
    out
}

} // verus!
