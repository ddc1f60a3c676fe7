use vstd::prelude::*;

use crate::models::{
    Actor, ActorV, CreateRental, CreateRentalV, Customer, CustomerV, Film, FilmV, InventoryItem,
    InventoryItemV, Payment, PaymentV, Rental, RentalResponse, RentalResponseV, RentalV, Staff,
    StaffV,
};
use crate::views::{lemma_views_of_push, lemma_views_of_remove, lemma_views_of_update, views_of};

verus! {

/// Outcome of a mutation that targets a single rental id, mirroring the
/// row count a relational backend reports: `Applied` stands for one row
/// affected, `NotFound` for zero.
#[derive(Clone, Copy, PartialEq, Eq, Structural, Debug)]
pub enum MutationOutcome {
    Applied,
    NotFound,
}

/// Error of a mutation that was refused: a reference to a row that does
/// not exist (what the backend reports as a constraint violation).
#[derive(Clone, Copy, PartialEq, Eq, Structural, Debug)]
pub enum StoreError {
    MissingReference,
}

/// An in-memory snapshot of the rental schema: the tables the endpoints
/// read, the rental table they mutate, and the next rental id the
/// backend's sequence would hand out.
pub struct Store {
    pub actors: Vec<Actor>,
    pub films: Vec<Film>,
    pub inventory: Vec<InventoryItem>,
    pub customers: Vec<Customer>,
    pub staff: Vec<Staff>,
    pub payments: Vec<Payment>,
    pub rentals: Vec<Rental>,
    pub next_rental_id: i32,
}

pub ghost struct StoreV {
    pub actors: Seq<ActorV>,
    pub films: Seq<FilmV>,
    pub inventory: Seq<InventoryItemV>,
    pub customers: Seq<CustomerV>,
    pub staff: Seq<StaffV>,
    pub payments: Seq<PaymentV>,
    pub rentals: Seq<RentalV>,
    pub next_rental_id: int,
}

impl View for Store {
    type V = StoreV;

    open spec fn view(&self) -> StoreV {
        StoreV {
            actors: views_of(self.actors@),
            films: views_of(self.films@),
            inventory: views_of(self.inventory@),
            customers: views_of(self.customers@),
            staff: views_of(self.staff@),
            payments: views_of(self.payments@),
            rentals: views_of(self.rentals@),
            next_rental_id: self.next_rental_id as int,
        }
    }
}

impl StoreV {
    pub open spec fn has_film(self, film_id: int) -> bool {
        exists|i: int| 0 <= i < self.films.len() && self.films[i].film_id == film_id
    }

    pub open spec fn film_index_of(self, film_id: int) -> int {
        choose|i: int| 0 <= i < self.films.len() && self.films[i].film_id == film_id
    }

    pub open spec fn has_inventory(self, inventory_id: int) -> bool {
        exists|i: int|
            0 <= i < self.inventory.len() && self.inventory[i].inventory_id == inventory_id
    }

    pub open spec fn inventory_index_of(self, inventory_id: int) -> int {
        choose|i: int|
            0 <= i < self.inventory.len() && self.inventory[i].inventory_id == inventory_id
    }

    pub open spec fn has_customer(self, customer_id: int) -> bool {
        exists|i: int|
            0 <= i < self.customers.len() && self.customers[i].customer_id == customer_id
    }

    pub open spec fn customer_index_of(self, customer_id: int) -> int {
        choose|i: int|
            0 <= i < self.customers.len() && self.customers[i].customer_id == customer_id
    }

    pub open spec fn has_staff(self, staff_id: int) -> bool {
        exists|i: int| 0 <= i < self.staff.len() && self.staff[i].staff_id == staff_id
    }

    pub open spec fn staff_index_of(self, staff_id: int) -> int {
        choose|i: int| 0 <= i < self.staff.len() && self.staff[i].staff_id == staff_id
    }

    pub open spec fn has_rental(self, rental_id: int) -> bool {
        exists|i: int| 0 <= i < self.rentals.len() && self.rentals[i].rental_id == rental_id
    }

    pub open spec fn rental_index_of(self, rental_id: int) -> int {
        choose|i: int| 0 <= i < self.rentals.len() && self.rentals[i].rental_id == rental_id
    }

    /// Title of the film the given inventory item carries (the
    /// rental-to-inventory-to-film join of the history reports).
    pub open spec fn title_of_inventory(self, inventory_id: int) -> Seq<char> {
        let item = self.inventory[self.inventory_index_of(inventory_id)];
        self.films[self.film_index_of(item.film_id)].title
    }

    /// Customer full name as the overdue report builds it.
    pub open spec fn customer_name_of(self, customer_id: int) -> Seq<char> {
        let c = self.customers[self.customer_index_of(customer_id)];
        c.first_name + " "@ + c.last_name
    }

    /// Staff full name as the revenue report builds it.
    pub open spec fn staff_name_of(self, staff_id: int) -> Seq<char> {
        let s = self.staff[self.staff_index_of(staff_id)];
        s.first_name + " "@ + s.last_name
    }

    /// Staff ids are unique: part of well-formedness, named for reuse.
    pub open spec fn unique_staff_ids(self) -> bool {
        forall|i: int, j: int|
            0 <= i < self.staff.len() && 0 <= j < self.staff.len() && i != j
                ==> self.staff[i].staff_id != self.staff[j].staff_id
    }

    pub open spec fn unique_actor_ids(self) -> bool {
        forall|i: int, j: int|
            0 <= i < self.actors.len() && 0 <= j < self.actors.len() && i != j
                ==> self.actors[i].actor_id != self.actors[j].actor_id
    }

    pub open spec fn unique_film_ids(self) -> bool {
        forall|i: int, j: int|
            0 <= i < self.films.len() && 0 <= j < self.films.len() && i != j
                ==> self.films[i].film_id != self.films[j].film_id
    }

    pub open spec fn unique_inventory_ids(self) -> bool {
        forall|i: int, j: int|
            0 <= i < self.inventory.len() && 0 <= j < self.inventory.len() && i != j
                ==> self.inventory[i].inventory_id != self.inventory[j].inventory_id
    }

    pub open spec fn unique_customer_ids(self) -> bool {
        forall|i: int, j: int|
            0 <= i < self.customers.len() && 0 <= j < self.customers.len() && i != j
                ==> self.customers[i].customer_id != self.customers[j].customer_id
    }

    pub open spec fn unique_rental_ids(self) -> bool {
        forall|i: int, j: int|
            0 <= i < self.rentals.len() && 0 <= j < self.rentals.len() && i != j
                ==> self.rentals[i].rental_id != self.rentals[j].rental_id
    }

    /// Well-formedness: primary keys are unique, foreign keys resolve,
    /// rental ids stay below the id the sequence hands out next, payment
    /// amounts are non-negative, and the tables are small enough that row
    /// counts fit a signed 64-bit count.
    pub open spec fn wf(self) -> bool {
        &&& self.unique_actor_ids()
        &&& self.unique_film_ids()
        &&& self.unique_inventory_ids()
        &&& self.unique_customer_ids()
        &&& self.unique_staff_ids()
        &&& self.unique_rental_ids()
        &&& forall|i: int|
            0 <= i < self.rentals.len() ==> self.rentals[i].rental_id < self.next_rental_id
        &&& forall|i: int|
            0 <= i < self.rentals.len() ==> {
                &&& #[trigger] self.has_inventory(self.rentals[i].inventory_id)
                &&& self.has_customer(self.rentals[i].customer_id)
                &&& self.has_staff(self.rentals[i].staff_id)
            }
        &&& forall|i: int|
            0 <= i < self.inventory.len() ==> #[trigger] self.has_film(self.inventory[i].film_id)
        &&& forall|i: int|
            0 <= i < self.payments.len() ==> #[trigger] self.has_staff(self.payments[i].staff_id)
        &&& forall|i: int|
            0 <= i < self.payments.len() ==> 0 <= #[trigger] self.payments[i].amount <= i64::MAX
        &&& self.rentals.len() <= i64::MAX
        &&& self.payments.len() <= i64::MAX
    }

    /// A matching inventory index is unique, so any found index is the
    /// chosen one.
    pub proof fn lemma_inventory_index(self, i: int)
        requires
            self.unique_inventory_ids(),
            0 <= i < self.inventory.len(),
        ensures
            self.inventory_index_of(self.inventory[i].inventory_id) == i,
    {
        let id = self.inventory[i].inventory_id;
        assert(self.has_inventory(id));
        let j = self.inventory_index_of(id);
        assert(0 <= j < self.inventory.len() && self.inventory[j].inventory_id == id);
        if i != j {
            assert(self.inventory[i].inventory_id != self.inventory[j].inventory_id);
        }
    }

    pub proof fn lemma_film_index(self, i: int)
        requires
            self.unique_film_ids(),
            0 <= i < self.films.len(),
        ensures
            self.film_index_of(self.films[i].film_id) == i,
    {
        let id = self.films[i].film_id;
        assert(self.has_film(id));
        let j = self.film_index_of(id);
        assert(0 <= j < self.films.len() && self.films[j].film_id == id);
        if i != j {
            assert(self.films[i].film_id != self.films[j].film_id);
        }
    }

    pub proof fn lemma_customer_index(self, i: int)
        requires
            self.unique_customer_ids(),
            0 <= i < self.customers.len(),
        ensures
            self.customer_index_of(self.customers[i].customer_id) == i,
    {
        let id = self.customers[i].customer_id;
        assert(self.has_customer(id));
        let j = self.customer_index_of(id);
        assert(0 <= j < self.customers.len() && self.customers[j].customer_id == id);
        if i != j {
            assert(self.customers[i].customer_id != self.customers[j].customer_id);
        }
    }

    /// Two snapshots with the same reference tables resolve every
    /// foreign key alike.
    pub proof fn lemma_same_lookups(self, other: StoreV)
        requires
            other.films == self.films,
            other.inventory == self.inventory,
            other.customers == self.customers,
            other.staff == self.staff,
        ensures
            forall|x: int| self.has_film(x) == #[trigger] other.has_film(x),
            forall|x: int| self.has_inventory(x) == #[trigger] other.has_inventory(x),
            forall|x: int| self.has_customer(x) == #[trigger] other.has_customer(x),
            forall|x: int| self.has_staff(x) == #[trigger] other.has_staff(x),
    {
        assert forall|x: int| self.has_film(x) == #[trigger] other.has_film(x) by {
            if self.has_film(x) {
                let j = choose|j: int| 0 <= j < self.films.len() && self.films[j].film_id == x;
                assert(other.films[j].film_id == x);
            }
            if other.has_film(x) {
                let j = choose|j: int| 0 <= j < other.films.len() && other.films[j].film_id == x;
                assert(self.films[j].film_id == x);
            }
        }
        assert forall|x: int| self.has_inventory(x) == #[trigger] other.has_inventory(x) by {
            if self.has_inventory(x) {
                let j = choose|j: int|
                    0 <= j < self.inventory.len() && self.inventory[j].inventory_id == x;
                assert(other.inventory[j].inventory_id == x);
            }
            if other.has_inventory(x) {
                let j = choose|j: int|
                    0 <= j < other.inventory.len() && other.inventory[j].inventory_id == x;
                assert(self.inventory[j].inventory_id == x);
            }
        }
        assert forall|x: int| self.has_customer(x) == #[trigger] other.has_customer(x) by {
            if self.has_customer(x) {
                let j = choose|j: int|
                    0 <= j < self.customers.len() && self.customers[j].customer_id == x;
                assert(other.customers[j].customer_id == x);
            }
            if other.has_customer(x) {
                let j = choose|j: int|
                    0 <= j < other.customers.len() && other.customers[j].customer_id == x;
                assert(self.customers[j].customer_id == x);
            }
        }
        assert forall|x: int| self.has_staff(x) == #[trigger] other.has_staff(x) by {
            if self.has_staff(x) {
                let j = choose|j: int| 0 <= j < self.staff.len() && self.staff[j].staff_id == x;
                assert(other.staff[j].staff_id == x);
            }
            if other.has_staff(x) {
                let j = choose|j: int| 0 <= j < other.staff.len() && other.staff[j].staff_id == x;
                assert(self.staff[j].staff_id == x);
            }
        }
    }

    /// A snapshot that keeps the reference tables keeps their share of
    /// well-formedness.
    pub proof fn lemma_fixed_tables_wf(self, other: StoreV)
        requires
            self.wf(),
            fixed_tables_unchanged(self, other),
        ensures
            other.unique_actor_ids(),
            other.unique_film_ids(),
            other.unique_inventory_ids(),
            other.unique_customer_ids(),
            other.unique_staff_ids(),
            forall|i: int|
                0 <= i < other.inventory.len() ==> #[trigger] other.has_film(
                    other.inventory[i].film_id,
                ),
            forall|i: int|
                0 <= i < other.payments.len() ==> #[trigger] other.has_staff(
                    other.payments[i].staff_id,
                ),
            forall|i: int|
                0 <= i < other.payments.len() ==> 0 <= #[trigger] other.payments[i].amount
                    <= i64::MAX,
            other.payments.len() <= i64::MAX,
    {
        self.lemma_same_lookups(other);
        assert forall|i: int, j: int|
            0 <= i < other.actors.len() && 0 <= j < other.actors.len() && i
                != j implies other.actors[i].actor_id != other.actors[j].actor_id by {
            assert(self.actors[i].actor_id != self.actors[j].actor_id);
        }
        assert forall|i: int, j: int|
            0 <= i < other.films.len() && 0 <= j < other.films.len() && i
                != j implies other.films[i].film_id != other.films[j].film_id by {
            assert(self.films[i].film_id != self.films[j].film_id);
        }
        assert forall|i: int, j: int|
            0 <= i < other.inventory.len() && 0 <= j < other.inventory.len() && i
                != j implies other.inventory[i].inventory_id != other.inventory[
            j
        ].inventory_id by {
            assert(self.inventory[i].inventory_id != self.inventory[j].inventory_id);
        }
        assert forall|i: int, j: int|
            0 <= i < other.customers.len() && 0 <= j < other.customers.len() && i
                != j implies other.customers[i].customer_id != other.customers[
            j
        ].customer_id by {
            assert(self.customers[i].customer_id != self.customers[j].customer_id);
        }
        assert forall|i: int, j: int|
            0 <= i < other.staff.len() && 0 <= j < other.staff.len() && i
                != j implies other.staff[i].staff_id != other.staff[j].staff_id by {
            assert(self.staff[i].staff_id != self.staff[j].staff_id);
        }
        assert forall|i: int|
            0 <= i < other.inventory.len() implies #[trigger] other.has_film(
            other.inventory[i].film_id,
        ) by {
            assert(self.has_film(self.inventory[i].film_id));
        }
        assert forall|i: int|
            0 <= i < other.payments.len() implies #[trigger] other.has_staff(
            other.payments[i].staff_id,
        ) && 0 <= other.payments[i].amount <= i64::MAX by {
            assert(self.has_staff(self.payments[i].staff_id));
            assert(0 <= self.payments[i].amount <= i64::MAX);
        }
    }

    pub proof fn lemma_staff_index(self, i: int)
        requires
            self.unique_staff_ids(),
            0 <= i < self.staff.len(),
        ensures
            self.staff_index_of(self.staff[i].staff_id) == i,
    {
        let id = self.staff[i].staff_id;
        assert(self.has_staff(id));
        let j = self.staff_index_of(id);
        assert(0 <= j < self.staff.len() && self.staff[j].staff_id == id);
        if i != j {
            assert(self.staff[i].staff_id != self.staff[j].staff_id);
        }
    }

    pub proof fn lemma_rental_index(self, i: int)
        requires
            self.unique_rental_ids(),
            0 <= i < self.rentals.len(),
        ensures
            self.rental_index_of(self.rentals[i].rental_id) == i,
    {
        let id = self.rentals[i].rental_id;
        assert(self.has_rental(id));
        let j = self.rental_index_of(id);
        assert(0 <= j < self.rentals.len() && self.rentals[j].rental_id == id);
        if i != j {
            assert(self.rentals[i].rental_id != self.rentals[j].rental_id);
        }
    }
}

/// The reference tables (everything but the rental table and the id
/// sequence) are untouched.
pub open spec fn fixed_tables_unchanged(pre: StoreV, post: StoreV) -> bool {
    &&& post.actors == pre.actors
    &&& post.films == pre.films
    &&& post.inventory == pre.inventory
    &&& post.customers == pre.customers
    &&& post.staff == pre.staff
    &&& post.payments == pre.payments
}

/// The rental row a successful create inserts.
pub open spec fn inserted_rental(pre: StoreV, req: CreateRentalV, now: int) -> RentalV {
    RentalV {
        rental_id: pre.next_rental_id,
        inventory_id: req.inventory_id,
        customer_id: req.customer_id,
        staff_id: req.staff_id,
        rental_date: now,
        return_date: None,
    }
}

/// Transition of a successful create: one fresh row appended, the id
/// sequence advanced, everything else untouched.
pub open spec fn create_applied(
    pre: StoreV,
    post: StoreV,
    req: CreateRentalV,
    now: int,
    resp: RentalResponseV,
) -> bool {
    &&& resp.rental_id == pre.next_rental_id
    &&& resp.rental_date == now
    &&& post.rentals == pre.rentals.push(inserted_rental(pre, req, now))
    &&& post.next_rental_id == pre.next_rental_id + 1
    &&& fixed_tables_unchanged(pre, post)
}

/// Transition of a return that found its row: the matching rental's
/// return timestamp is set (overwritten if already present), everything
/// else untouched.
pub open spec fn return_applied(pre: StoreV, post: StoreV, rental_id: int, now: int) -> bool {
    &&& post.rentals.len() == pre.rentals.len()
    &&& forall|j: int|
        0 <= j < pre.rentals.len() ==> #[trigger] post.rentals[j] == (if pre.rentals[j].rental_id
            == rental_id {
            RentalV {
                rental_id: pre.rentals[j].rental_id,
                inventory_id: pre.rentals[j].inventory_id,
                customer_id: pre.rentals[j].customer_id,
                staff_id: pre.rentals[j].staff_id,
                rental_date: pre.rentals[j].rental_date,
                return_date: Some(now),
            }
        } else {
            pre.rentals[j]
        })
    &&& post.next_rental_id == pre.next_rental_id
    &&& fixed_tables_unchanged(pre, post)
}

/// Transition of a cancel that found its row: exactly the matching
/// rental is deleted, everything else untouched.
pub open spec fn cancel_applied(pre: StoreV, post: StoreV, rental_id: int) -> bool {
    &&& pre.has_rental(rental_id)
    &&& post.rentals == pre.rentals.remove(pre.rental_index_of(rental_id))
    &&& !post.has_rental(rental_id)
    &&& post.next_rental_id == pre.next_rental_id
    &&& fixed_tables_unchanged(pre, post)
}

impl Store {
    /// An empty snapshot: no rows, the id sequence at one. Well-formed
    /// from the start.
    pub fn new() -> (s: Store)
        ensures
            s@.wf(),
            s@.rentals.len() == 0,
            s@.actors.len() == 0,
            s@.payments.len() == 0,
            s@.next_rental_id == 1,
    {
        Store {
            actors: Vec::new(),
            films: Vec::new(),
            inventory: Vec::new(),
            customers: Vec::new(),
            staff: Vec::new(),
            payments: Vec::new(),
            rentals: Vec::new(),
            next_rental_id: 1,
        }
    }

    /// Whether an inventory row with this id exists.
    pub fn has_inventory_item(&self, inventory_id: i32) -> (r: bool)
        ensures
            r == self@.has_inventory(inventory_id as int),
    {
        let n = self.inventory.len();
        let mut i: usize = 0;
        while i < n
            invariant
                i <= n,
                n == self.inventory.len(),
                forall|j: int| 0 <= j < i ==> self@.inventory[j].inventory_id != inventory_id as int,
            decreases n - i,
        {
            if self.inventory[i].inventory_id == inventory_id {
                assert(self@.inventory[i as int].inventory_id == inventory_id as int);
                return true;
            }
            i += 1;
        }
        false
    }

    /// Whether a customer row with this id exists.
    pub fn has_customer_row(&self, customer_id: i32) -> (r: bool)
        ensures
            r == self@.has_customer(customer_id as int),
    {
        let n = self.customers.len();
        let mut i: usize = 0;
        while i < n
            invariant
                i <= n,
                n == self.customers.len(),
                forall|j: int| 0 <= j < i ==> self@.customers[j].customer_id != customer_id as int,
            decreases n - i,
        {
            if self.customers[i].customer_id == customer_id {
                assert(self@.customers[i as int].customer_id == customer_id as int);
                return true;
            }
            i += 1;
        }
        false
    }

    /// Whether a staff row with this id exists.
    pub fn has_staff_row(&self, staff_id: i32) -> (r: bool)
        ensures
            r == self@.has_staff(staff_id as int),
    {
        let n = self.staff.len();
        let mut i: usize = 0;
        while i < n
            invariant
                i <= n,
                n == self.staff.len(),
                forall|j: int| 0 <= j < i ==> self@.staff[j].staff_id != staff_id as int,
            decreases n - i,
        {
            if self.staff[i].staff_id == staff_id {
                assert(self@.staff[i as int].staff_id == staff_id as int);
                return true;
            }
            i += 1;
        }
        false
    }

    /// Insert a rental row, as the create endpoint's statement does.
    /// Succeeds exactly when the three referenced rows exist; a missing
    /// reference is refused the way the backend refuses a foreign-key
    /// violation, and leaves the store untouched.
    pub fn create_rental(&mut self, req: &CreateRental, now: i64) -> (r: Result<
        RentalResponse,
        StoreError,
    >)
        requires
            old(self)@.wf(),
            old(self).next_rental_id < i32::MAX,
            old(self)@.rentals.len() < i64::MAX,
        ensures
            final(self)@.wf(),
            r is Ok <==> {
                &&& old(self)@.has_inventory(req@.inventory_id)
                &&& old(self)@.has_customer(req@.customer_id)
                &&& old(self)@.has_staff(req@.staff_id)
            },
            r matches Ok(resp) ==> create_applied(old(self)@, final(self)@, req@, now as int, resp@)
                && !old(self)@.has_rental(resp@.rental_id),
            r is Err ==> final(self)@ == old(self)@ && r == Err::<RentalResponse,
            StoreError>(StoreError::MissingReference),
    {
        let ok = self.has_inventory_item(req.inventory_id) && self.has_customer_row(
            req.customer_id,
        ) && self.has_staff_row(req.staff_id);
        if !ok {
            return Err(StoreError::MissingReference);
        }
        let id = self.next_rental_id;
        let rental = Rental {
            rental_id: id,
            inventory_id: req.inventory_id,
            customer_id: req.customer_id,
            staff_id: req.staff_id,
            rental_date: now,
            return_date: None,
        };
        let ghost pre = self@;
        let ghost rentals0 = self.rentals@;
        self.rentals.push(rental);
        self.next_rental_id = id + 1;
        proof {
            lemma_views_of_push(rentals0, rental);
            assert(self@.rentals =~= pre.rentals.push(rental@));
            assert(rental@ == inserted_rental(pre, req@, now as int));
            let post = self@;
            assert(!pre.has_rental(id as int)) by {
                if pre.has_rental(id as int) {
                    let j = pre.rental_index_of(id as int);
                    assert(pre.rentals[j].rental_id < pre.next_rental_id);
                }
            }
            assert(post.unique_rental_ids()) by {
                assert forall|a: int, b: int|
                    0 <= a < post.rentals.len() && 0 <= b < post.rentals.len() && a
                        != b implies post.rentals[a].rental_id != post.rentals[b].rental_id by {
                    if a < pre.rentals.len() && b < pre.rentals.len() {
                        assert(pre.rentals[a].rental_id != pre.rentals[b].rental_id);
                    } else if a < pre.rentals.len() {
                        assert(pre.rentals[a].rental_id < pre.next_rental_id);
                        assert(post.rentals[b] == rental@);
                    } else {
                        assert(pre.rentals[b].rental_id < pre.next_rental_id);
                        assert(post.rentals[a] == rental@);
                    }
                }
            }
            assert forall|i: int|
                0 <= i < post.rentals.len() implies post.rentals[i].rental_id
                < post.next_rental_id by {
                if i < pre.rentals.len() {
                    assert(pre.rentals[i].rental_id < pre.next_rental_id);
                }
            }
            pre.lemma_same_lookups(post);
            pre.lemma_fixed_tables_wf(post);
            assert(post.wf()) by {
                assert forall|i: int| 0 <= i < post.rentals.len() implies {
                    &&& #[trigger] post.has_inventory(post.rentals[i].inventory_id)
                    &&& post.has_customer(post.rentals[i].customer_id)
                    &&& post.has_staff(post.rentals[i].staff_id)
                } by {
                    if i < pre.rentals.len() {
                        assert(pre.has_inventory(pre.rentals[i].inventory_id));
                        assert(pre.has_customer(pre.rentals[i].customer_id));
                        assert(pre.has_staff(pre.rentals[i].staff_id));
                    } else {
                        assert(post.rentals[i] == rental@);
                        assert(pre.has_inventory(req@.inventory_id));
                        assert(pre.has_customer(req@.customer_id));
                        assert(pre.has_staff(req@.staff_id));
                    }
                }
            }
        }
        Ok(RentalResponse { rental_id: id, rental_date: now })
    }

    /// Stamp the matching rental as returned now, as the return
    /// endpoint's statement does; the timestamp is overwritten if the
    /// rental was already returned. Reports `NotFound` exactly when no
    /// row carries the id.
    pub fn return_dvd(&mut self, rental_id: i32, now: i64) -> (r: MutationOutcome)
        requires
            old(self)@.wf(),
        ensures
            final(self)@.wf(),
            r == MutationOutcome::Applied <==> old(self)@.has_rental(rental_id as int),
            old(self)@.has_rental(rental_id as int) ==> return_applied(
                old(self)@,
                final(self)@,
                rental_id as int,
                now as int,
            ),
            !old(self)@.has_rental(rental_id as int) ==> final(self)@ == old(self)@,
    {
        let n = self.rentals.len();
        let mut i: usize = 0;
        while i < n
            invariant
                i <= n,
                n == self.rentals.len(),
                self@ == old(self)@,
                old(self)@.wf(),
                forall|j: int| 0 <= j < i ==> self@.rentals[j].rental_id != rental_id as int,
            decreases n - i,
        {
            if self.rentals[i].rental_id == rental_id {
                let mut row = self.rentals[i];
                row.return_date = Some(now);
                let ghost pre = self@;
                let ghost rentals0 = self.rentals@;
                self.rentals[i] = row;
                proof {
                    lemma_views_of_update(rentals0, i as int, row);
                    assert(self@.rentals =~= pre.rentals.update(i as int, row@));
                    assert(pre.rentals[i as int].rental_id == rental_id as int);
                    assert(pre.has_rental(rental_id as int));
                    assert(return_applied(pre, self@, rental_id as int, now as int)) by {
                        assert forall|j: int| 0 <= j < pre.rentals.len() implies #[trigger] self@
                            .rentals[j] == (if pre.rentals[j].rental_id == rental_id as int {
                            RentalV {
                                rental_id: pre.rentals[j].rental_id,
                                inventory_id: pre.rentals[j].inventory_id,
                                customer_id: pre.rentals[j].customer_id,
                                staff_id: pre.rentals[j].staff_id,
                                rental_date: pre.rentals[j].rental_date,
                                return_date: Some(now as int),
                            }
                        } else {
                            pre.rentals[j]
                        }) by {
                            if j != i as int && pre.rentals[j].rental_id == rental_id as int {
                                assert(pre.rentals[j].rental_id != pre.rentals[
                                    i as int
                                ].rental_id);
                            }
                        }
                    }
                    let post = self@;
                    pre.lemma_same_lookups(post);
                    pre.lemma_fixed_tables_wf(post);
                    assert(post.unique_rental_ids()) by {
                        assert forall|a: int, b: int|
                            0 <= a < post.rentals.len() && 0 <= b < post.rentals.len() && a
                                != b implies post.rentals[a].rental_id != post.rentals[
                            b
                        ].rental_id by {
                            assert(post.rentals[a].rental_id == pre.rentals[a].rental_id);
                            assert(post.rentals[b].rental_id == pre.rentals[b].rental_id);
                            assert(pre.rentals[a].rental_id != pre.rentals[b].rental_id);
                        }
                    }
                    assert(post.wf()) by {
                        assert forall|k: int|
                            0 <= k < post.rentals.len() implies post.rentals[k].rental_id
                            < post.next_rental_id by {
                            assert(post.rentals[k].rental_id == pre.rentals[k].rental_id);
                        }
                        assert forall|k: int| 0 <= k < post.rentals.len() implies {
                            &&& #[trigger] post.has_inventory(post.rentals[k].inventory_id)
                            &&& post.has_customer(post.rentals[k].customer_id)
                            &&& post.has_staff(post.rentals[k].staff_id)
                        } by {
                            assert(pre.has_inventory(pre.rentals[k].inventory_id));
                            assert(pre.has_customer(pre.rentals[k].customer_id));
                            assert(pre.has_staff(pre.rentals[k].staff_id));
                            assert(post.rentals[k].inventory_id == pre.rentals[k].inventory_id);
                            assert(post.rentals[k].customer_id == pre.rentals[k].customer_id);
                            assert(post.rentals[k].staff_id == pre.rentals[k].staff_id);
                        }
                    }
                }
                return MutationOutcome::Applied;
            }
            i += 1;
        }
        MutationOutcome::NotFound
    }

    /// Delete the matching rental row, as the cancel endpoint's
    /// statement does. Reports `NotFound` exactly when no row carries
    /// the id.
    pub fn cancel_rental(&mut self, rental_id: i32) -> (r: MutationOutcome)
        requires
            old(self)@.wf(),
        ensures
            final(self)@.wf(),
            r == MutationOutcome::Applied <==> old(self)@.has_rental(rental_id as int),
            old(self)@.has_rental(rental_id as int) ==> cancel_applied(
                old(self)@,
                final(self)@,
                rental_id as int,
            ),
            !old(self)@.has_rental(rental_id as int) ==> final(self)@ == old(self)@,
    {
        let n = self.rentals.len();
        let mut i: usize = 0;
        while i < n
            invariant
                i <= n,
                n == self.rentals.len(),
                self@ == old(self)@,
                old(self)@.wf(),
                forall|j: int| 0 <= j < i ==> self@.rentals[j].rental_id != rental_id as int,
            decreases n - i,
        {
            if self.rentals[i].rental_id == rental_id {
                let ghost pre = self@;
                let ghost rentals0 = self.rentals@;
                self.rentals.remove(i);
                proof {
                    lemma_views_of_remove(rentals0, i as int);
                    assert(self@.rentals =~= pre.rentals.remove(i as int));
                    assert(pre.rentals[i as int].rental_id == rental_id as int);
                    assert(pre.has_rental(rental_id as int));
                    pre.lemma_rental_index(i as int);
                    assert forall|j: int| 0 <= j < self@.rentals.len() implies #[trigger] self@
                        .rentals[j] == (if j < i as int {
                        pre.rentals[j]
                    } else {
                        pre.rentals[j + 1]
                    }) by {}
                    assert(!self@.has_rental(rental_id as int)) by {
                        assert forall|j: int|
                            0 <= j < self@.rentals.len() implies self@.rentals[j].rental_id
                            != rental_id as int by {
                            if j < i as int {
                                assert(pre.rentals[j].rental_id != pre.rentals[
                                    i as int
                                ].rental_id);
                            } else {
                                assert(pre.rentals[j + 1].rental_id != pre.rentals[
                                    i as int
                                ].rental_id);
                            }
                        }
                    }
                    let post = self@;
                    pre.lemma_same_lookups(post);
                    pre.lemma_fixed_tables_wf(post);
                    assert(post.unique_rental_ids()) by {
                        assert forall|a: int, b: int|
                            0 <= a < post.rentals.len() && 0 <= b < post.rentals.len() && a
                                != b implies post.rentals[a].rental_id != post.rentals[
                            b
                        ].rental_id by {
                            let a0: int = if a < i as int {
                                a
                            } else {
                                a + 1
                            };
                            let b0: int = if b < i as int {
                                b
                            } else {
                                b + 1
                            };
                            assert(post.rentals[a] == pre.rentals[a0]);
                            assert(post.rentals[b] == pre.rentals[b0]);
                            assert(pre.rentals[a0].rental_id != pre.rentals[b0].rental_id);
                        }
                    }
                    assert(post.wf()) by {
                        assert forall|k: int| 0 <= k < post.rentals.len() implies {
                            &&& #[trigger] post.has_inventory(post.rentals[k].inventory_id)
                            &&& post.has_customer(post.rentals[k].customer_id)
                            &&& post.has_staff(post.rentals[k].staff_id)
                            &&& post.rentals[k].rental_id < post.next_rental_id
                        } by {
                            let k0: int = if k < i as int {
                                k
                            } else {
                                k + 1
                            };
                            assert(post.rentals[k] == pre.rentals[k0]);
                            assert(pre.has_inventory(pre.rentals[k0].inventory_id));
                            assert(pre.has_customer(pre.rentals[k0].customer_id));
                            assert(pre.has_staff(pre.rentals[k0].staff_id));
                            assert(pre.rentals[k0].rental_id < pre.next_rental_id);
                        }
                    }
                }
                return MutationOutcome::Applied;
            }
            i += 1;
        }
        MutationOutcome::NotFound
    }
}

} // verus!
