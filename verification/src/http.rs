use vstd::prelude::*;
use vstd::string::StringExecFns;

verus! {

/// Marker for a failed database round trip: the service collapses every
/// downstream failure into one generic server error.
#[derive(Clone, Copy, PartialEq, Eq, Structural, Debug)]
pub struct DbFailure;

/// An HTTP reply: status code and text body.
pub struct Reply {
    pub status: u16,
    pub body: String,
}

/// The decimal digit character for one digit value.
pub open spec fn spec_digit(d: int) -> char {
    if d == 0 {
        '0'
    } else if d == 1 {
        '1'
    } else if d == 2 {
        '2'
    } else if d == 3 {
        '3'
    } else if d == 4 {
        '4'
    } else if d == 5 {
        '5'
    } else if d == 6 {
        '6'
    } else if d == 7 {
        '7'
    } else if d == 8 {
        '8'
    } else {
        '9'
    }
}

/// Decimal digits of a non-negative number, most significant first.
pub open spec fn dec_digits(n: int) -> Seq<char>
    recommends
        n >= 0,
    decreases n,
{
    if n <= 9 {
        seq![spec_digit(n)]
    } else {
        dec_digits(n / 10).push(spec_digit(n % 10))
    }
}

/// Decimal rendering of an integer, with a leading minus when negative.
pub open spec fn dec_int(n: int) -> Seq<char> {
    if n < 0 {
        seq!['-'] + dec_digits(-n)
    } else {
        dec_digits(n)
    }
}

/// Characters of collected low-to-high digits, read back high-to-low.
spec fn chars_rev(digs: Seq<u64>) -> Seq<char> {
    Seq::new(digs.len(), |i: int| spec_digit(digs[digs.len() - 1 - i] as int))
}

proof fn lemma_chars_rev_push(digs: Seq<u64>, d: u64)
    ensures
        chars_rev(digs.push(d)) =~= seq![spec_digit(d as int)] + chars_rev(digs),
{
    assert forall|i: int| 0 <= i < digs.len() + 1 implies chars_rev(digs.push(d))[i] == (seq![
        spec_digit(d as int),
    ] + chars_rev(digs))[i] by {
        if i == 0 {
            assert(digs.push(d)[digs.len() as int] == d);
        } else {
            assert(digs.push(d)[digs.len() - i] == digs[digs.len() - i]);
        }
    }
}

/// The one-character string for a digit value.
fn digit_str(d: u64) -> (s: &'static str)
    requires
        d < 10,
    ensures
        s@ == seq![spec_digit(d as int)],
{
    let r: &'static str = if d == 0 {
        "0"
    } else if d == 1 {
        "1"
    } else if d == 2 {
        "2"
    } else if d == 3 {
        "3"
    } else if d == 4 {
        "4"
    } else if d == 5 {
        "5"
    } else if d == 6 {
        "6"
    } else if d == 7 {
        "7"
    } else if d == 8 {
        "8"
    } else {
        "9"
    };
    proof {
        reveal_strlit("0");
        reveal_strlit("1");
        reveal_strlit("2");
        reveal_strlit("3");
        reveal_strlit("4");
        reveal_strlit("5");
        reveal_strlit("6");
        reveal_strlit("7");
        reveal_strlit("8");
        reveal_strlit("9");
        assert(r@ =~= seq![spec_digit(d as int)]);
    }
    r
}

/// Decimal rendering of a signed number, exactly as the messages embed
/// it.
pub fn i64_dec_string(n: i64) -> (s: String)
    ensures
        s@ == dec_int(n as int),
{
    let m: u64 = if n < 0 {
        (-(n as i128)) as u64
    } else {
        n as u64
    };
    assert(m as int == if n < 0 {
        -(n as int)
    } else {
        n as int
    });
    let mut digs: Vec<u64> = Vec::new();
    let mut cur: u64 = m;
    while cur > 9
        invariant
            forall|j: int| 0 <= j < digs@.len() ==> #[trigger] digs@[j] < 10,
            dec_digits(m as int) =~= dec_digits(cur as int) + chars_rev(digs@),
        decreases cur,
    {
        let d = cur % 10;
        let ghost digs0 = digs@;
        digs.push(d);
        cur = cur / 10;
        proof {
            lemma_chars_rev_push(digs0, d);
            assert(dec_digits((cur * 10 + d) as int) =~= dec_digits(cur as int).push(
                spec_digit(d as int),
            ));
            assert(dec_digits(cur as int).push(spec_digit(d as int)) =~= dec_digits(cur as int)
                + seq![spec_digit(d as int)]);
            assert(dec_digits(m as int) =~= dec_digits(cur as int) + chars_rev(digs@));
        }
    }
    let d = cur;
    let ghost digs0 = digs@;
    digs.push(d);
    proof {
        lemma_chars_rev_push(digs0, d);
        assert(dec_digits(d as int) =~= seq![spec_digit(d as int)]);
        assert(dec_digits(m as int) =~= chars_rev(digs@));
    }
    let mut s = String::new();
    if n < 0 {
        s.append("-");
        proof {
            reveal_strlit("-");
            assert(s@ =~= seq!['-']);
        }
    }
    let ghost head = s@;
    let nd = digs.len();
    let mut j: usize = nd;
    while j > 0
        invariant
            j <= nd,
            nd == digs@.len(),
            forall|k: int| 0 <= k < digs@.len() ==> #[trigger] digs@[k] < 10,
            s@ == head + chars_rev(digs@).take(nd - j),
        decreases j,
    {
        j -= 1;
        let ghost s0 = s@;
        s.append(digit_str(digs[j]));
        proof {
            assert(chars_rev(digs@)[nd - j - 1] == spec_digit(digs@[j as int] as int));
            assert(s@ =~= head + chars_rev(digs@).take(nd - j));
        }
    }
    proof {
        assert(chars_rev(digs@).take(nd as int) =~= chars_rev(digs@));
        assert(s@ =~= head + chars_rev(digs@));
        assert(s@ =~= dec_int(n as int));
    }
    s
}

/// The not-found message of the two id-targeted mutations.
fn rental_not_found_body(rental_id: i32) -> (s: String)
    ensures
        s@ == "Rental with ID "@ + dec_int(rental_id as int) + " not found"@,
{
    let mut s = String::from_str("Rental with ID ");
    let num = i64_dec_string(rental_id as i64);
    s.append(num.as_str());
    s.append(" not found");
    s
}

/// HTTP reply of the return endpoint: 404 when the update touched no
/// row, 200 with a confirmation otherwise; a failed round trip
/// collapses to a generic 500.
pub fn return_dvd_reply(rental_id: i32, result: Result<u64, DbFailure>) -> (r: Reply)
    ensures
        result is Err ==> r.status == 500 && r.body@ == "Failed to return DVD."@,
        result matches Ok(rows) && rows == 0 ==> r.status == 404 && r.body@ == "Rental with ID "@
            + dec_int(rental_id as int) + " not found"@,
        result matches Ok(rows) && rows > 0 ==> r.status == 200 && r.body@ == "Rental "@ + dec_int(
            rental_id as int,
        ) + " returned successfully"@,
{
    match result {
        Err(_) => Reply { status: 500, body: String::from_str("Failed to return DVD.") },
        Ok(rows) => {
            if rows == 0 {
                Reply { status: 404, body: rental_not_found_body(rental_id) }
            } else {
                let mut s = String::from_str("Rental ");
                let num = i64_dec_string(rental_id as i64);
                s.append(num.as_str());
                s.append(" returned successfully");
                Reply { status: 200, body: s }
            }
        },
    }
}

/// HTTP reply of the cancel endpoint: 404 when the delete touched no
/// row, an empty 204 otherwise; a failed round trip collapses to a
/// generic 500.
pub fn cancel_rental_reply(rental_id: i32, result: Result<u64, DbFailure>) -> (r: Reply)
    ensures
        result is Err ==> r.status == 500 && r.body@ == "Failed to cancel rental."@,
        result matches Ok(rows) && rows == 0 ==> r.status == 404 && r.body@ == "Rental with ID "@
            + dec_int(rental_id as int) + " not found"@,
        result matches Ok(rows) && rows > 0 ==> r.status == 204 && r.body@.len() == 0,
{
    match result {
        Err(_) => Reply { status: 500, body: String::from_str("Failed to cancel rental.") },
        Ok(rows) => {
            if rows == 0 {
                Reply { status: 404, body: rental_not_found_body(rental_id) }
            } else {
                Reply { status: 204, body: String::new() }
            }
        },
    }
}

/// Status of the create endpoint: 201 for the inserted row, 500 for any
/// failure.
pub fn create_rental_status(ok: bool) -> (st: u16)
    ensures
        st == if ok {
            201int
        } else {
            500int
        },
{
    if ok {
        201
    } else {
        500
    }
}

/// Status of the list endpoints: 200 with the rows (an empty list is a
/// valid result, not an error), 500 for a failed round trip.
pub fn list_status(ok: bool) -> (st: u16)
    ensures
        st == if ok {
            200int
        } else {
            500int
        },
{
    if ok {
        200
    } else {
        500
    }
}

} // verus!
