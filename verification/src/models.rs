use vstd::prelude::*;

verus! {

// Record types mirroring the rows of the rental schema and the response
// shapes of the endpoints. Timestamps are seconds since the Unix epoch;
// money amounts are integer cents.

/// One row of the actor table.
pub struct Actor {
    pub actor_id: i32,
    pub first_name: String,
    pub last_name: String,
}

pub ghost struct ActorV {
    pub actor_id: int,
    pub first_name: Seq<char>,
    pub last_name: Seq<char>,
}

impl View for Actor {
    type V = ActorV;

    open spec fn view(&self) -> ActorV {
        ActorV {
            actor_id: self.actor_id as int,
            first_name: self.first_name@,
            last_name: self.last_name@,
        }
    }
}

/// Input of the create-rental endpoint.
pub struct CreateRental {
    pub customer_id: i32,
    pub inventory_id: i32,
    pub staff_id: i32,
}

pub ghost struct CreateRentalV {
    pub customer_id: int,
    pub inventory_id: int,
    pub staff_id: int,
}

impl View for CreateRental {
    type V = CreateRentalV;

    open spec fn view(&self) -> CreateRentalV {
        CreateRentalV {
            customer_id: self.customer_id as int,
            inventory_id: self.inventory_id as int,
            staff_id: self.staff_id as int,
        }
    }
}

/// Response of the create-rental endpoint.
#[derive(Clone, Copy, PartialEq, Eq, Structural, Debug)]
pub struct RentalResponse {
    pub rental_id: i32,
    pub rental_date: i64,
}

pub ghost struct RentalResponseV {
    pub rental_id: int,
    pub rental_date: int,
}

impl View for RentalResponse {
    type V = RentalResponseV;

    open spec fn view(&self) -> RentalResponseV {
        RentalResponseV {
            rental_id: self.rental_id as int,
            rental_date: self.rental_date as int,
        }
    }
}

/// One entry of a customer's rental history.
pub struct CustomerRental {
    pub rental_id: i32,
    pub film_title: String,
    pub rental_date: i64,
    pub return_date: Option<i64>,
}

pub ghost struct CustomerRentalV {
    pub rental_id: int,
    pub film_title: Seq<char>,
    pub rental_date: int,
    pub return_date: Option<int>,
}

impl View for CustomerRental {
    type V = CustomerRentalV;

    open spec fn view(&self) -> CustomerRentalV {
        CustomerRentalV {
            rental_id: self.rental_id as int,
            film_title: self.film_title@,
            rental_date: self.rental_date as int,
            return_date: match self.return_date {
                Some(t) => Some(t as int),
                None => None,
            },
        }
    }
}

/// One entry of the overdue report: a rental not yet returned.
pub struct OverdueRental {
    pub rental_id: i32,
    pub film_title: String,
    pub customer_name: String,
    pub rental_date: i64,
}

pub ghost struct OverdueRentalV {
    pub rental_id: int,
    pub film_title: Seq<char>,
    pub customer_name: Seq<char>,
    pub rental_date: int,
}

impl View for OverdueRental {
    type V = OverdueRentalV;

    open spec fn view(&self) -> OverdueRentalV {
        OverdueRentalV {
            rental_id: self.rental_id as int,
            film_title: self.film_title@,
            customer_name: self.customer_name@,
            rental_date: self.rental_date as int,
        }
    }
}

/// One entry of the most-rented report.
pub struct MostRentedFilm {
    pub film_title: String,
    pub rental_count: i64,
}

pub ghost struct MostRentedFilmV {
    pub film_title: Seq<char>,
    pub rental_count: int,
}

impl View for MostRentedFilm {
    type V = MostRentedFilmV;

    open spec fn view(&self) -> MostRentedFilmV {
        MostRentedFilmV {
            film_title: self.film_title@,
            rental_count: self.rental_count as int,
        }
    }
}

/// One entry of the staff revenue report.
pub struct StaffRevenue {
    pub staff_name: String,
    pub total_revenue: i128,
}

pub ghost struct StaffRevenueV {
    pub staff_name: Seq<char>,
    pub total_revenue: int,
}

impl View for StaffRevenue {
    type V = StaffRevenueV;

    open spec fn view(&self) -> StaffRevenueV {
        StaffRevenueV {
            staff_name: self.staff_name@,
            total_revenue: self.total_revenue as int,
        }
    }
}

/// One row of the rental table.
#[derive(Clone, Copy)]
pub struct Rental {
    pub rental_id: i32,
    pub inventory_id: i32,
    pub customer_id: i32,
    pub staff_id: i32,
    pub rental_date: i64,
    pub return_date: Option<i64>,
}

pub ghost struct RentalV {
    pub rental_id: int,
    pub inventory_id: int,
    pub customer_id: int,
    pub staff_id: int,
    pub rental_date: int,
    pub return_date: Option<int>,
}

impl View for Rental {
    type V = RentalV;

    open spec fn view(&self) -> RentalV {
        RentalV {
            rental_id: self.rental_id as int,
            inventory_id: self.inventory_id as int,
            customer_id: self.customer_id as int,
            staff_id: self.staff_id as int,
            rental_date: self.rental_date as int,
            return_date: match self.return_date {
                Some(t) => Some(t as int),
                None => None,
            },
        }
    }
}

/// One row of the film table, as far as the reports read it.
pub struct Film {
    pub film_id: i32,
    pub title: String,
}

pub ghost struct FilmV {
    pub film_id: int,
    pub title: Seq<char>,
}

impl View for Film {
    type V = FilmV;

    open spec fn view(&self) -> FilmV {
        FilmV { film_id: self.film_id as int, title: self.title@ }
    }
}

/// One row of the inventory table.
pub struct InventoryItem {
    pub inventory_id: i32,
    pub film_id: i32,
}

pub ghost struct InventoryItemV {
    pub inventory_id: int,
    pub film_id: int,
}

impl View for InventoryItem {
    type V = InventoryItemV;

    open spec fn view(&self) -> InventoryItemV {
        InventoryItemV {
            inventory_id: self.inventory_id as int,
            film_id: self.film_id as int,
        }
    }
}

/// One row of the customer table, as far as the reports read it.
pub struct Customer {
    pub customer_id: i32,
    pub first_name: String,
    pub last_name: String,
}

pub ghost struct CustomerV {
    pub customer_id: int,
    pub first_name: Seq<char>,
    pub last_name: Seq<char>,
}

impl View for Customer {
    type V = CustomerV;

    open spec fn view(&self) -> CustomerV {
        CustomerV {
            customer_id: self.customer_id as int,
            first_name: self.first_name@,
            last_name: self.last_name@,
        }
    }
}

/// One row of the staff table, as far as the reports read it.
pub struct Staff {
    pub staff_id: i32,
    pub first_name: String,
    pub last_name: String,
}

pub ghost struct StaffV {
    pub staff_id: int,
    pub first_name: Seq<char>,
    pub last_name: Seq<char>,
}

impl View for Staff {
    type V = StaffV;

    open spec fn view(&self) -> StaffV {
        StaffV {
            staff_id: self.staff_id as int,
            first_name: self.first_name@,
            last_name: self.last_name@,
        }
    }
}

/// One row of the payment table, as far as the reports read it.
pub struct Payment {
    pub payment_id: i32,
    pub staff_id: i32,
    pub amount: i64,
}

pub ghost struct PaymentV {
    pub payment_id: int,
    pub staff_id: int,
    pub amount: int,
}

impl View for Payment {
    type V = PaymentV;

    open spec fn view(&self) -> PaymentV {
        PaymentV {
            payment_id: self.payment_id as int,
            staff_id: self.staff_id as int,
            amount: self.amount as int,
        }
    }
}

} // verus!
