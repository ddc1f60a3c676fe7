use vstd::prelude::*;
use vstd::multiset::Multiset;
use vstd::string::StringExecFns;

use crate::models::{
    Actor, ActorV, CustomerRental, CustomerRentalV, OverdueRental, OverdueRentalV, RentalV,
};
use crate::store::{Store, StoreV};
use crate::views::{
    lemma_take_le_multiset, lemma_views_of_push, lemma_views_of_remove, lemma_views_of_take,
    views_of,
};

verus! {

broadcast use vstd::seq_lib::group_to_multiset_ensures;

/// Later entries never carry a later rental date: the history order.
pub open spec fn sorted_by_date_desc(s: Seq<CustomerRentalV>) -> bool {
    forall|i: int, j: int| 0 <= i <= j < s.len() ==> s[i].rental_date >= s[j].rental_date
}

/// Earlier entries never carry a later rental date: the overdue order.
pub open spec fn sorted_by_date_asc(s: Seq<OverdueRentalV>) -> bool {
    forall|i: int, j: int| 0 <= i <= j < s.len() ==> s[i].rental_date <= s[j].rental_date
}

/// Ascending actor ids: the actor listing order.
pub open spec fn sorted_by_actor_id(s: Seq<ActorV>) -> bool {
    forall|i: int, j: int| 0 <= i <= j < s.len() ==> s[i].actor_id <= s[j].actor_id
}

impl StoreV {
    /// The history entry a rental row projects to.
    pub open spec fn history_entry_of(self, r: RentalV) -> CustomerRentalV {
        CustomerRentalV {
            rental_id: r.rental_id,
            film_title: self.title_of_inventory(r.inventory_id),
            rental_date: r.rental_date,
            return_date: r.return_date,
        }
    }

    /// History entries of the customer among the first `n` rental rows,
    /// in row order.
    pub open spec fn history_prefix(self, customer_id: int, n: int) -> Seq<CustomerRentalV>
        decreases n,
    {
        if n <= 0 {
            Seq::empty()
        } else {
            let rest = self.history_prefix(customer_id, n - 1);
            if self.rentals[n - 1].customer_id == customer_id {
                rest.push(self.history_entry_of(self.rentals[n - 1]))
            } else {
                rest
            }
        }
    }

    /// All history entries of the customer, in row order.
    pub open spec fn customer_history(self, customer_id: int) -> Seq<CustomerRentalV> {
        self.history_prefix(customer_id, self.rentals.len() as int)
    }

    /// The overdue entry a rental row projects to.
    pub open spec fn overdue_entry_of(self, r: RentalV) -> OverdueRentalV {
        OverdueRentalV {
            rental_id: r.rental_id,
            film_title: self.title_of_inventory(r.inventory_id),
            customer_name: self.customer_name_of(r.customer_id),
            rental_date: r.rental_date,
        }
    }

    /// Overdue entries (no return timestamp) among the first `n` rental
    /// rows, in row order.
    pub open spec fn overdue_prefix(self, n: int) -> Seq<OverdueRentalV>
        decreases n,
    {
        if n <= 0 {
            Seq::empty()
        } else {
            let rest = self.overdue_prefix(n - 1);
            if self.rentals[n - 1].return_date is None {
                rest.push(self.overdue_entry_of(self.rentals[n - 1]))
            } else {
                rest
            }
        }
    }

    /// All overdue entries, in row order.
    pub open spec fn overdue_list(self) -> Seq<OverdueRentalV> {
        self.overdue_prefix(self.rentals.len() as int)
    }
}

impl Store {
    /// Title of the film the inventory item carries: the inventory-film
    /// join of the reports.
    pub(crate) fn film_title_for_inventory(&self, inventory_id: i32) -> (t: String)
        requires
            self@.wf(),
            self@.has_inventory(inventory_id as int),
        ensures
            t@ == self@.title_of_inventory(inventory_id as int),
    {
        let n = self.inventory.len();
        let mut i: usize = 0;
        while i < n
            invariant
                i <= n,
                n == self.inventory.len(),
                self@.wf(),
                self@.has_inventory(inventory_id as int),
                forall|j: int| 0 <= j < i ==> self@.inventory[j].inventory_id != inventory_id as int,
            decreases n - i,
        {
            if self.inventory[i].inventory_id == inventory_id {
                proof {
                    self@.lemma_inventory_index(i as int);
                }
                let film_id = self.inventory[i].film_id;
                assert(self@.has_film(self@.inventory[i as int].film_id));
                assert(self@.has_film(film_id as int));
                let m = self.films.len();
                let mut f: usize = 0;
                while f < m
                    invariant
                        f <= m,
                        m == self.films.len(),
                        self@.wf(),
                        self@.has_film(film_id as int),
                        i < self.inventory.len(),
                        self@.inventory[i as int].inventory_id == inventory_id as int,
                        self@.inventory[i as int].film_id == film_id as int,
                        self@.inventory_index_of(inventory_id as int) == i as int,
                        forall|j: int| 0 <= j < f ==> self@.films[j].film_id != film_id as int,
                    decreases m - f,
                {
                    if self.films[f].film_id == film_id {
                        proof {
                            self@.lemma_film_index(f as int);
                        }
                        return self.films[f].title.clone();
                    }
                    f += 1;
                }
                proof {
                    assert(!self@.has_film(film_id as int));
                }
                // unreachable: the invariant guarantees the film exists
                assert(false);
            }
            i += 1;
        }
        proof {
            assert(!self@.has_inventory(inventory_id as int));
        }
        // unreachable: the caller guarantees the inventory item exists
        assert(false);
        String::new()
    }

    /// Customer full name, first and last joined by a space, as the
    /// overdue report shows it.
    fn customer_name_for(&self, customer_id: i32) -> (nm: String)
        requires
            self@.wf(),
            self@.has_customer(customer_id as int),
        ensures
            nm@ == self@.customer_name_of(customer_id as int),
    {
        let n = self.customers.len();
        let mut i: usize = 0;
        while i < n
            invariant
                i <= n,
                n == self.customers.len(),
                self@.wf(),
                self@.has_customer(customer_id as int),
                forall|j: int| 0 <= j < i ==> self@.customers[j].customer_id != customer_id as int,
            decreases n - i,
        {
            if self.customers[i].customer_id == customer_id {
                proof {
                    self@.lemma_customer_index(i as int);
                }
                let mut nm = self.customers[i].first_name.clone();
                nm.append(" ");
                nm.append(self.customers[i].last_name.as_str());
                return nm;
            }
            i += 1;
        }
        proof {
            assert(!self@.has_customer(customer_id as int));
        }
        // unreachable: the caller guarantees the customer exists
        assert(false);
        String::new()
    }

    /// Rental history of one customer: every rental of that customer,
    /// joined with its film title, newest rental date first. A customer
    /// with no rentals gets the empty list, not an error.
    pub fn get_customer_rentals(&self, customer_id: i32) -> (out: Vec<CustomerRental>)
        requires
            self@.wf(),
        ensures
            views_of(out@).to_multiset() == self@.customer_history(customer_id as int).to_multiset(),
            sorted_by_date_desc(views_of(out@)),
            self@.customer_history(customer_id as int).len() == 0 ==> out@.len() == 0,
    {
        let mut found: Vec<CustomerRental> = Vec::new();
        let n = self.rentals.len();
        let mut i: usize = 0;
        while i < n
            invariant
                i <= n,
                n == self.rentals.len(),
                self@.wf(),
                views_of(found@) == self@.history_prefix(customer_id as int, i as int),
            decreases n - i,
        {
            let r = self.rentals[i];
            if r.customer_id == customer_id {
                assert(self@.has_inventory(self@.rentals[i as int].inventory_id));
                let title = self.film_title_for_inventory(r.inventory_id);
                let entry = CustomerRental {
                    rental_id: r.rental_id,
                    film_title: title,
                    rental_date: r.rental_date,
                    return_date: r.return_date,
                };
                proof {
                    lemma_views_of_push(found@, entry);
                    assert(entry@ == self@.history_entry_of(self@.rentals[i as int]));
                }
                found.push(entry);
            }
            i += 1;
        }
        assert(views_of(found@) == self@.customer_history(customer_id as int));
        let out = sort_history_desc(found);
        proof {
            if self@.customer_history(customer_id as int).len() == 0 {
                assert(views_of(out@).to_multiset().len() == 0);
            }
        }
        out
    }

    /// The overdue report: every rental without a return timestamp,
    /// joined with its film title and customer name, oldest rental date
    /// first.
    pub fn get_overdue_rentals(&self) -> (out: Vec<OverdueRental>)
        requires
            self@.wf(),
        ensures
            views_of(out@).to_multiset() == self@.overdue_list().to_multiset(),
            sorted_by_date_asc(views_of(out@)),
    {
        let mut found: Vec<OverdueRental> = Vec::new();
        let n = self.rentals.len();
        let mut i: usize = 0;
        while i < n
            invariant
                i <= n,
                n == self.rentals.len(),
                self@.wf(),
                views_of(found@) == self@.overdue_prefix(i as int),
            decreases n - i,
        {
            let r = self.rentals[i];
            if r.return_date.is_none() {
                assert(self@.has_inventory(self@.rentals[i as int].inventory_id));
                assert(self@.has_customer(self@.rentals[i as int].customer_id));
                let title = self.film_title_for_inventory(r.inventory_id);
                let name = self.customer_name_for(r.customer_id);
                let entry = OverdueRental {
                    rental_id: r.rental_id,
                    film_title: title,
                    customer_name: name,
                    rental_date: r.rental_date,
                };
                proof {
                    lemma_views_of_push(found@, entry);
                    assert(entry@ == self@.overdue_entry_of(self@.rentals[i as int]));
                }
                found.push(entry);
            }
            i += 1;
        }
        assert(views_of(found@) == self@.overdue_list());
        sort_overdue_asc(found)
    }

    /// The first ten actors by ascending id, as the listing endpoint
    /// shows them.
    pub fn get_actors(&self) -> (out: Vec<Actor>)
        requires
            self@.wf(),
        ensures
            sorted_by_actor_id(views_of(out@)),
            out@.len() == if self@.actors.len() <= 10 {
                self@.actors.len()
            } else {
                10nat
            },
            forall|x: ActorV|
                views_of(out@).to_multiset().count(x) <= self@.actors.to_multiset().count(x),
            forall|x: ActorV, y: ActorV|
                #![trigger self@.actors.contains(x), views_of(out@).contains(y)]
                self@.actors.contains(x) && !views_of(out@).contains(x) && views_of(out@).contains(
                    y,
                ) ==> y.actor_id <= x.actor_id,
    {
        let mut all: Vec<Actor> = Vec::new();
        let n = self.actors.len();
        let mut i: usize = 0;
        while i < n
            invariant
                i <= n,
                n == self.actors.len(),
                views_of(all@) == self@.actors.take(i as int),
            decreases n - i,
        {
            let a = Actor {
                actor_id: self.actors[i].actor_id,
                first_name: self.actors[i].first_name.clone(),
                last_name: self.actors[i].last_name.clone(),
            };
            proof {
                lemma_views_of_push(all@, a);
                assert(self@.actors.take(i as int).push(self@.actors[i as int]) =~= self@
                    .actors.take(i as int + 1));
            }
            all.push(a);
            i += 1;
        }
        assert(views_of(all@) =~= self@.actors);
        let mut sorted = sort_actors_asc(all);
        let ghost full = views_of(sorted@);
        proof {
            assert(full.to_multiset().len() == self@.actors.to_multiset().len());
            assert(full.len() == self@.actors.len());
        }
        if sorted.len() > 10 {
            let ghost sorted0 = sorted@;
            sorted.truncate(10);
            proof {
                assert(sorted@ =~= sorted0.take(10));
                lemma_views_of_take(sorted0, 10);
            }
        }
        proof {
            assert(views_of(sorted@) =~= (if full.len() <= 10 {
                full
            } else {
                full.take(10)
            }));
            lemma_take_le_multiset(full, if full.len() <= 10 {
                full.len() as int
            } else {
                10
            });
            assert forall|x: ActorV, y: ActorV|
                #![trigger self@.actors.contains(x), views_of(sorted@).contains(y)]
                self@.actors.contains(x) && !views_of(sorted@).contains(x) && views_of(
                    sorted@,
                ).contains(y) implies y.actor_id <= x.actor_id by {
                assert(full.to_multiset().contains(x));
                assert(full.contains(x));
                let ix = choose|ix: int| 0 <= ix < full.len() && full[ix] == x;
                let iy = choose|iy: int|
                    0 <= iy < views_of(sorted@).len() && views_of(sorted@)[iy] == y;
                assert(full[iy] == y);
                if ix < views_of(sorted@).len() {
                    assert(views_of(sorted@)[ix] == x);
                }
            }
        }
        sorted
    }
}

/// Law: the overdue report holds entries of unreturned rentals only.
/// Each entry stems from a rental row whose return timestamp is absent.
pub proof fn lemma_overdue_entry_unreturned(s: StoreV, m: int)
    requires
        0 <= m < s.overdue_list().len(),
    ensures
        exists|j: int|
            #![trigger s.rentals[j]]
            {
                &&& 0 <= j < s.rentals.len()
                &&& s.rentals[j].return_date is None
                &&& s.overdue_list()[m] == s.overdue_entry_of(s.rentals[j])
            },
{
    lemma_overdue_prefix_entry_at(s, s.rentals.len() as int, m);
}

/// An overdue entry among the first `n` rows comes from an unreturned
/// row.
proof fn lemma_overdue_prefix_entry_at(s: StoreV, n: int, m: int)
    requires
        n <= s.rentals.len(),
        0 <= m < s.overdue_prefix(n).len(),
    ensures
        exists|j: int|
            #![trigger s.rentals[j]]
            {
                &&& 0 <= j < n
                &&& s.rentals[j].return_date is None
                &&& s.overdue_prefix(n)[m] == s.overdue_entry_of(s.rentals[j])
            },
    decreases n,
{
    assert(n > 0);
    if m < s.overdue_prefix(n - 1).len() {
        lemma_overdue_prefix_entry_at(s, n - 1, m);
        let j = choose|j: int|
            #![trigger s.rentals[j]]
            {
                &&& 0 <= j < n - 1
                &&& s.rentals[j].return_date is None
                &&& s.overdue_prefix(n - 1)[m] == s.overdue_entry_of(s.rentals[j])
            };
        assert(s.overdue_prefix(n)[m] == s.overdue_prefix(n - 1)[m]);
        assert(0 <= j < n && s.rentals[j].return_date is None && s.overdue_prefix(n)[m]
            == s.overdue_entry_of(s.rentals[j]));
    } else {
        assert(s.rentals[n - 1].return_date is None);
        assert(s.overdue_prefix(n)[m] == s.overdue_entry_of(s.rentals[n - 1]));
    }
}

/// Sort history entries by descending rental date; the entries are kept,
/// only reordered.
fn sort_history_desc(v: Vec<CustomerRental>) -> (out: Vec<CustomerRental>)
    ensures
        views_of(out@).to_multiset() == views_of(v@).to_multiset(),
        sorted_by_date_desc(views_of(out@)),
{
    let mut rest = v;
    let ghost total = views_of(rest@).to_multiset();
    let mut out: Vec<CustomerRental> = Vec::new();
    proof {
        assert(views_of(out@).to_multiset().add(views_of(rest@).to_multiset()) =~= total);
    }
    while rest.len() > 0
        invariant
            views_of(out@).to_multiset().add(views_of(rest@).to_multiset()) == total,
            sorted_by_date_desc(views_of(out@)),
            forall|a: int, b: int|
                0 <= a < out@.len() && 0 <= b < rest@.len() ==> views_of(out@)[a].rental_date
                    >= views_of(rest@)[b].rental_date,
        decreases rest.len(),
    {
        let mut k: usize = 0;
        let mut m: usize = 1;
        while m < rest.len()
            invariant
                0 < rest@.len(),
                k < m <= rest@.len(),
                forall|j: int|
                    0 <= j < m ==> views_of(rest@)[k as int].rental_date >= views_of(
                        rest@,
                    )[j].rental_date,
            decreases rest@.len() - m,
        {
            if rest[m].rental_date > rest[k].rental_date {
                k = m;
            }
            m += 1;
        }
        let ghost rest0 = rest@;
        let ghost out0 = out@;
        let e = rest.remove(k);
        proof {
            lemma_views_of_remove(rest0, k as int);
            assert(views_of(rest@) =~= views_of(rest0).remove(k as int));
            assert(views_of(rest0).contains(views_of(rest0)[k as int]));
        }
        out.push(e);
        proof {
            lemma_views_of_push(out0, e);
            assert(views_of(out@) =~= views_of(out0).push(e@));
            assert(e@ == views_of(rest0)[k as int]);
            assert(views_of(out@).to_multiset() =~= views_of(out0).to_multiset().insert(e@));
            assert(views_of(rest@).to_multiset() =~= views_of(rest0).to_multiset().remove(e@));
            assert(views_of(out@).to_multiset().add(views_of(rest@).to_multiset()) =~= total);
        }
    }
    proof {
        assert(views_of(rest@).to_multiset() =~= Multiset::empty());
        assert(views_of(out@).to_multiset() =~= total);
    }
    out
}

/// Sort overdue entries by ascending rental date; the entries are kept,
/// only reordered.
fn sort_overdue_asc(v: Vec<OverdueRental>) -> (out: Vec<OverdueRental>)
    ensures
        views_of(out@).to_multiset() == views_of(v@).to_multiset(),
        sorted_by_date_asc(views_of(out@)),
{
    let mut rest = v;
    let ghost total = views_of(rest@).to_multiset();
    let mut out: Vec<OverdueRental> = Vec::new();
    proof {
        assert(views_of(out@).to_multiset().add(views_of(rest@).to_multiset()) =~= total);
    }
    while rest.len() > 0
        invariant
            views_of(out@).to_multiset().add(views_of(rest@).to_multiset()) == total,
            sorted_by_date_asc(views_of(out@)),
            forall|a: int, b: int|
                0 <= a < out@.len() && 0 <= b < rest@.len() ==> views_of(out@)[a].rental_date
                    <= views_of(rest@)[b].rental_date,
        decreases rest.len(),
    {
        let mut k: usize = 0;
        let mut m: usize = 1;
        while m < rest.len()
            invariant
                0 < rest@.len(),
                k < m <= rest@.len(),
                forall|j: int|
                    0 <= j < m ==> views_of(rest@)[k as int].rental_date <= views_of(
                        rest@,
                    )[j].rental_date,
            decreases rest@.len() - m,
        {
            if rest[m].rental_date < rest[k].rental_date {
                k = m;
            }
            m += 1;
        }
        let ghost rest0 = rest@;
        let ghost out0 = out@;
        let e = rest.remove(k);
        proof {
            lemma_views_of_remove(rest0, k as int);
            assert(views_of(rest@) =~= views_of(rest0).remove(k as int));
            assert(views_of(rest0).contains(views_of(rest0)[k as int]));
        }
        out.push(e);
        proof {
            lemma_views_of_push(out0, e);
            assert(views_of(out@) =~= views_of(out0).push(e@));
            assert(e@ == views_of(rest0)[k as int]);
            assert(views_of(out@).to_multiset() =~= views_of(out0).to_multiset().insert(e@));
            assert(views_of(rest@).to_multiset() =~= views_of(rest0).to_multiset().remove(e@));
            assert(views_of(out@).to_multiset().add(views_of(rest@).to_multiset()) =~= total);
        }
    }
    proof {
        assert(views_of(rest@).to_multiset() =~= Multiset::empty());
        assert(views_of(out@).to_multiset() =~= total);
    }
    out
}

/// Sort actors by ascending id; the entries are kept, only reordered.
fn sort_actors_asc(v: Vec<Actor>) -> (out: Vec<Actor>)
    ensures
        views_of(out@).to_multiset() == views_of(v@).to_multiset(),
        sorted_by_actor_id(views_of(out@)),
{
    let mut rest = v;
    let ghost total = views_of(rest@).to_multiset();
    let mut out: Vec<Actor> = Vec::new();
    proof {
        assert(views_of(out@).to_multiset().add(views_of(rest@).to_multiset()) =~= total);
    }
    while rest.len() > 0
        invariant
            views_of(out@).to_multiset().add(views_of(rest@).to_multiset()) == total,
            sorted_by_actor_id(views_of(out@)),
            forall|a: int, b: int|
                0 <= a < out@.len() && 0 <= b < rest@.len() ==> views_of(out@)[a].actor_id
                    <= views_of(rest@)[b].actor_id,
        decreases rest.len(),
    {
        let mut k: usize = 0;
        let mut m: usize = 1;
        while m < rest.len()
            invariant
                0 < rest@.len(),
                k < m <= rest@.len(),
                forall|j: int|
                    0 <= j < m ==> views_of(rest@)[k as int].actor_id <= views_of(
                        rest@,
                    )[j].actor_id,
            decreases rest@.len() - m,
        {
            if rest[m].actor_id < rest[k].actor_id {
                k = m;
            }
            m += 1;
        }
        let ghost rest0 = rest@;
        let ghost out0 = out@;
        let e = rest.remove(k);
        proof {
            lemma_views_of_remove(rest0, k as int);
            assert(views_of(rest@) =~= views_of(rest0).remove(k as int));
            assert(views_of(rest0).contains(views_of(rest0)[k as int]));
        }
        out.push(e);
        proof {
            lemma_views_of_push(out0, e);
            assert(views_of(out@) =~= views_of(out0).push(e@));
            assert(e@ == views_of(rest0)[k as int]);
            assert(views_of(out@).to_multiset() =~= views_of(out0).to_multiset().insert(e@));
            assert(views_of(rest@).to_multiset() =~= views_of(rest0).to_multiset().remove(e@));
            assert(views_of(out@).to_multiset().add(views_of(rest@).to_multiset()) =~= total);
        }
    }
    proof {
        assert(views_of(rest@).to_multiset() =~= Multiset::empty());
        assert(views_of(out@).to_multiset() =~= total);
    }
    out
}

} // verus!
