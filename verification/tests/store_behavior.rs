use rental_api::models::{Actor, CreateRental, Customer, Film, InventoryItem, Payment, Rental, Staff};
use rental_api::store::{MutationOutcome, Store, StoreError};

fn film(film_id: i32, title: &str) -> Film {
    Film { film_id, title: title.to_string() }
}

fn sample_store() -> Store {
    Store {
        actors: vec![
            Actor { actor_id: 2, first_name: "NICK".to_string(), last_name: "WAHLBERG".to_string() },
            Actor { actor_id: 1, first_name: "PENELOPE".to_string(), last_name: "GUINESS".to_string() },
        ],
        films: vec![film(1, "ACADEMY DINOSAUR"), film(2, "ACE GOLDFINGER"), film(3, "ZORRO ARK")],
        inventory: vec![
            InventoryItem { inventory_id: 10, film_id: 1 },
            InventoryItem { inventory_id: 11, film_id: 2 },
            InventoryItem { inventory_id: 12, film_id: 1 },
            InventoryItem { inventory_id: 13, film_id: 3 },
        ],
        customers: vec![
            Customer { customer_id: 100, first_name: "MARY".to_string(), last_name: "SMITH".to_string() },
            Customer { customer_id: 101, first_name: "PATRICIA".to_string(), last_name: "JOHNSON".to_string() },
        ],
        staff: vec![
            Staff { staff_id: 1, first_name: "Mike".to_string(), last_name: "Hillyer".to_string() },
            Staff { staff_id: 2, first_name: "Jon".to_string(), last_name: "Stephens".to_string() },
        ],
        payments: vec![
            Payment { payment_id: 1000, staff_id: 1, amount: 599 },
            Payment { payment_id: 1001, staff_id: 2, amount: 299 },
            Payment { payment_id: 1002, staff_id: 1, amount: 1000 },
        ],
        rentals: vec![
            Rental {
                rental_id: 1,
                inventory_id: 10,
                customer_id: 100,
                staff_id: 1,
                rental_date: 1000,
                return_date: Some(2000),
            },
            Rental {
                rental_id: 2,
                inventory_id: 11,
                customer_id: 100,
                staff_id: 1,
                rental_date: 3000,
                return_date: None,
            },
            Rental {
                rental_id: 3,
                inventory_id: 12,
                customer_id: 101,
                staff_id: 2,
                rental_date: 500,
                return_date: None,
            },
        ],
        next_rental_id: 4,
    }
}

#[test]
fn create_rental_returns_fresh_id_and_timestamp() {
    let mut store = sample_store();
    let req = CreateRental { customer_id: 100, inventory_id: 13, staff_id: 2 };
    let resp = store.create_rental(&req, 4500).unwrap();
    assert_eq!(resp.rental_id, 4);
    assert_eq!(resp.rental_date, 4500);
    assert!(resp.rental_date >= 4500);
    assert_eq!(store.rentals.len(), 4);
    assert_eq!(store.rentals[3].rental_id, 4);
    assert_eq!(store.rentals[3].return_date, None);
    assert_eq!(store.next_rental_id, 5);
}

#[test]
fn create_rental_missing_reference_is_refused() {
    let mut store = sample_store();
    let req = CreateRental { customer_id: 100, inventory_id: 999, staff_id: 2 };
    let r = store.create_rental(&req, 4500);
    assert_eq!(r, Err(StoreError::MissingReference));
    assert_eq!(store.rentals.len(), 3);
    let req2 = CreateRental { customer_id: 77, inventory_id: 10, staff_id: 2 };
    assert_eq!(store.create_rental(&req2, 4500), Err(StoreError::MissingReference));
    let req3 = CreateRental { customer_id: 100, inventory_id: 10, staff_id: 9 };
    assert_eq!(store.create_rental(&req3, 4500), Err(StoreError::MissingReference));
}

#[test]
fn concurrent_style_double_booking_gets_distinct_ids() {
    let mut store = sample_store();
    let req = CreateRental { customer_id: 100, inventory_id: 10, staff_id: 1 };
    let first = store.create_rental(&req, 6000).unwrap();
    let second = store.create_rental(&req, 6001).unwrap();
    assert_ne!(first.rental_id, second.rental_id);
    assert_eq!(first.rental_id, 4);
    assert_eq!(second.rental_id, 5);
    assert_eq!(store.rentals.len(), 5);
    assert_eq!(store.rentals[3].rental_id, 4);
    assert_eq!(store.rentals[4].rental_id, 5);
}

#[test]
fn return_dvd_stamps_the_row() {
    let mut store = sample_store();
    let r = store.return_dvd(2, 9000);
    assert_eq!(r, MutationOutcome::Applied);
    assert_eq!(store.rentals[1].return_date, Some(9000));
    assert_eq!(store.rentals.len(), 3);
    assert_eq!(store.rentals[0].return_date, Some(2000));
}

#[test]
fn return_dvd_twice_overwrites_timestamp() {
    // Whether re-returning an already-returned rental should be refused is
    // an open design question; the update statement simply stamps the row
    // again, so the second call succeeds and overwrites the timestamp.
    let mut store = sample_store();
    assert_eq!(store.return_dvd(2, 9000), MutationOutcome::Applied);
    assert_eq!(store.return_dvd(2, 9500), MutationOutcome::Applied);
    assert_eq!(store.rentals[1].return_date, Some(9500));
}

#[test]
fn return_dvd_missing_id_reports_not_found() {
    let mut store = sample_store();
    let r = store.return_dvd(999999999, 9000);
    assert_eq!(r, MutationOutcome::NotFound);
    assert_eq!(store.rentals.len(), 3);
}

#[test]
fn cancel_rental_deletes_exactly_one_row() {
    let mut store = sample_store();
    let r = store.cancel_rental(2);
    assert_eq!(r, MutationOutcome::Applied);
    assert_eq!(store.rentals.len(), 2);
    assert!(store.rentals.iter().all(|x| x.rental_id != 2));
}

#[test]
fn cancel_rental_missing_id_reports_not_found() {
    let mut store = sample_store();
    let r = store.cancel_rental(999999999);
    assert_eq!(r, MutationOutcome::NotFound);
    assert_eq!(store.rentals.len(), 3);
}

#[test]
fn customer_history_is_joined_and_newest_first() {
    let store = sample_store();
    let rows = store.get_customer_rentals(100);
    assert_eq!(rows.len(), 2);
    assert_eq!(rows[0].rental_id, 2);
    assert_eq!(rows[0].film_title, "ACE GOLDFINGER");
    assert_eq!(rows[0].rental_date, 3000);
    assert_eq!(rows[0].return_date, None);
    assert_eq!(rows[1].rental_id, 1);
    assert_eq!(rows[1].film_title, "ACADEMY DINOSAUR");
    assert_eq!(rows[1].rental_date, 1000);
    assert_eq!(rows[1].return_date, Some(2000));
}

#[test]
fn customer_history_empty_for_customer_without_rentals() {
    let store = sample_store();
    let rows = store.get_customer_rentals(555);
    assert_eq!(rows.len(), 0);
}

#[test]
fn overdue_list_unreturned_only_oldest_first() {
    let store = sample_store();
    let rows = store.get_overdue_rentals();
    assert_eq!(rows.len(), 2);
    assert_eq!(rows[0].rental_id, 3);
    assert_eq!(rows[0].film_title, "ACADEMY DINOSAUR");
    assert_eq!(rows[0].customer_name, "PATRICIA JOHNSON");
    assert_eq!(rows[0].rental_date, 500);
    assert_eq!(rows[1].rental_id, 2);
    assert_eq!(rows[1].film_title, "ACE GOLDFINGER");
    assert_eq!(rows[1].customer_name, "MARY SMITH");
    assert_eq!(rows[1].rental_date, 3000);
    assert!(rows[0].rental_date <= rows[1].rental_date);
}

#[test]
fn overdue_list_empty_when_everything_returned() {
    let mut store = sample_store();
    store.return_dvd(2, 9000);
    store.return_dvd(3, 9000);
    let rows = store.get_overdue_rentals();
    assert_eq!(rows.len(), 0);
}

#[test]
fn most_rented_films_counts_and_orders() {
    let store = sample_store();
    let rows = store.get_most_rented_films();
    assert_eq!(rows.len(), 2);
    assert_eq!(rows[0].film_title, "ACADEMY DINOSAUR");
    assert_eq!(rows[0].rental_count, 2);
    assert_eq!(rows[1].film_title, "ACE GOLDFINGER");
    assert_eq!(rows[1].rental_count, 1);
}

#[test]
fn most_rented_films_groups_equal_titles_of_distinct_films() {
    let mut store = sample_store();
    store.films = vec![film(1, "SAME TITLE"), film(2, "SAME TITLE")];
    store.inventory = vec![
        InventoryItem { inventory_id: 10, film_id: 1 },
        InventoryItem { inventory_id: 11, film_id: 2 },
        InventoryItem { inventory_id: 12, film_id: 1 },
        InventoryItem { inventory_id: 13, film_id: 2 },
    ];
    let rows = store.get_most_rented_films();
    assert_eq!(rows.len(), 1);
    assert_eq!(rows[0].film_title, "SAME TITLE");
    assert_eq!(rows[0].rental_count, 3);
}

#[test]
fn most_rented_films_caps_at_ten() {
    let mut store = sample_store();
    store.films = (1..=12).map(|k| film(k, &format!("TITLE {:02}", k))).collect();
    store.inventory = (1..=12)
        .map(|k| InventoryItem { inventory_id: 100 + k, film_id: k })
        .collect();
    store.rentals = Vec::new();
    // title k is rented k times, so the two least rented fall out
    let mut id = 1;
    for k in 1..=12 {
        for _ in 0..k {
            store.rentals.push(Rental {
                rental_id: id,
                inventory_id: 100 + k,
                customer_id: 100,
                staff_id: 1,
                rental_date: id as i64,
                return_date: None,
            });
            id += 1;
        }
    }
    store.next_rental_id = id;
    let rows = store.get_most_rented_films();
    assert_eq!(rows.len(), 10);
    assert_eq!(rows[0].film_title, "TITLE 12");
    assert_eq!(rows[0].rental_count, 12);
    assert_eq!(rows[9].film_title, "TITLE 03");
    assert_eq!(rows[9].rental_count, 3);
    for w in rows.windows(2) {
        assert!(w[0].rental_count >= w[1].rental_count);
    }
}

#[test]
fn staff_revenue_sums_and_orders() {
    let store = sample_store();
    let rows = store.get_staff_revenue();
    assert_eq!(rows.len(), 2);
    assert_eq!(rows[0].staff_name, "Mike Hillyer");
    assert_eq!(rows[0].total_revenue, 1599);
    assert_eq!(rows[1].staff_name, "Jon Stephens");
    assert_eq!(rows[1].total_revenue, 299);
}

#[test]
fn staff_revenue_merges_staff_sharing_a_name() {
    let mut store = sample_store();
    store.staff = vec![
        Staff { staff_id: 1, first_name: "Mike".to_string(), last_name: "Hillyer".to_string() },
        Staff { staff_id: 2, first_name: "Mike".to_string(), last_name: "Hillyer".to_string() },
    ];
    let rows = store.get_staff_revenue();
    assert_eq!(rows.len(), 1);
    assert_eq!(rows[0].staff_name, "Mike Hillyer");
    assert_eq!(rows[0].total_revenue, 1898);
}

#[test]
fn actors_come_back_sorted_by_id() {
    let store = sample_store();
    let rows = store.get_actors();
    assert_eq!(rows.len(), 2);
    assert_eq!(rows[0].actor_id, 1);
    assert_eq!(rows[0].first_name, "PENELOPE");
    assert_eq!(rows[1].actor_id, 2);
    assert_eq!(rows[1].first_name, "NICK");
}

#[test]
fn actors_list_caps_at_ten_smallest_ids() {
    let mut store = sample_store();
    store.actors = (1..=15)
        .rev()
        .map(|k| Actor {
            actor_id: k,
            first_name: format!("FIRST{}", k),
            last_name: format!("LAST{}", k),
        })
        .collect();
    let rows = store.get_actors();
    assert_eq!(rows.len(), 10);
    for (i, a) in rows.iter().enumerate() {
        assert_eq!(a.actor_id, i as i32 + 1);
    }
}

#[test]
fn fresh_store_is_empty_and_mutations_find_nothing() {
    let mut store = Store::new();
    assert_eq!(store.next_rental_id, 1);
    assert_eq!(store.return_dvd(1, 100), MutationOutcome::NotFound);
    assert_eq!(store.cancel_rental(1), MutationOutcome::NotFound);
    let req = CreateRental { customer_id: 1, inventory_id: 1, staff_id: 1 };
    assert_eq!(store.create_rental(&req, 10), Err(StoreError::MissingReference));
    assert_eq!(store.rentals.len(), 0);
}

#[test]
fn empty_store_lists_are_empty() {
    let store = Store {
        actors: Vec::new(),
        films: Vec::new(),
        inventory: Vec::new(),
        customers: Vec::new(),
        staff: Vec::new(),
        payments: Vec::new(),
        rentals: Vec::new(),
        next_rental_id: 1,
    };
    assert_eq!(store.get_actors().len(), 0);
    assert_eq!(store.get_overdue_rentals().len(), 0);
    assert_eq!(store.get_most_rented_films().len(), 0);
    assert_eq!(store.get_staff_revenue().len(), 0);
    assert_eq!(store.get_customer_rentals(1).len(), 0);
}
