use vstd::prelude::*;

use crate::models::{CreateRentalV, RentalResponseV, RentalV};
use crate::store::{create_applied, return_applied, StoreV};

verus! {

/// Law: a rental that still exists can be returned again. Both calls
/// touch the row, and the second overwrites the return timestamp the
/// first one set.
pub proof fn lemma_return_twice_overwrites(
    s0: StoreV,
    s1: StoreV,
    s2: StoreV,
    rental_id: int,
    t1: int,
    t2: int,
)
    requires
        s0.has_rental(rental_id),
        return_applied(s0, s1, rental_id, t1),
        return_applied(s1, s2, rental_id, t2),
    ensures
        s1.has_rental(rental_id),
        s2.has_rental(rental_id),
        forall|j: int|
            0 <= j < s2.rentals.len() && (#[trigger] s2.rentals[j]).rental_id == rental_id
                ==> s2.rentals[j].return_date == Some(t2),
{
    let i = choose|i: int| 0 <= i < s0.rentals.len() && s0.rentals[i].rental_id == rental_id;
    assert(s1.rentals[i].rental_id == rental_id);
    assert(s1.has_rental(rental_id));
    assert(s2.rentals[i].rental_id == rental_id);
    assert(s2.has_rental(rental_id));
    assert forall|j: int|
        0 <= j < s2.rentals.len() && (#[trigger] s2.rentals[j]).rental_id
            == rental_id implies s2.rentals[j].return_date == Some(t2) by {
        assert(s2.rentals[j] == (if s1.rentals[j].rental_id == rental_id {
            RentalV {
                rental_id: s1.rentals[j].rental_id,
                inventory_id: s1.rentals[j].inventory_id,
                customer_id: s1.rentals[j].customer_id,
                staff_id: s1.rentals[j].staff_id,
                rental_date: s1.rentals[j].rental_date,
                return_date: Some(t2),
            }
        } else {
            s1.rentals[j]
        }));
        assert(s1.rentals[j].rental_id == rental_id);
    }
}

/// Law: two creates in a row hand out distinct rental ids, and both
/// rows sit intact in the table afterwards; inserting twice for one
/// inventory item is not refused, only kept apart by id.
pub proof fn lemma_two_creates_distinct(
    s0: StoreV,
    s1: StoreV,
    s2: StoreV,
    q1: CreateRentalV,
    q2: CreateRentalV,
    t1: int,
    t2: int,
    r1: RentalResponseV,
    r2: RentalResponseV,
)
    requires
        create_applied(s0, s1, q1, t1, r1),
        create_applied(s1, s2, q2, t2, r2),
    ensures
        r1.rental_id != r2.rental_id,
        s2.has_rental(r1.rental_id),
        s2.has_rental(r2.rental_id),
        r1.rental_date == t1,
        r2.rental_date == t2,
{
    let n0 = s0.rentals.len() as int;
    assert(s1.rentals[n0].rental_id == r1.rental_id);
    assert(s2.rentals[n0].rental_id == r1.rental_id);
    assert(s2.rentals[n0 + 1].rental_id == r2.rental_id);
}

} // verus!
