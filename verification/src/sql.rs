//! Construction of the parameterized insert statements that one flush sends
//! to the durable store: one row per reading, binding three parameters per
//! row in fixed order (value, device id, created-at).

use vstd::prelude::*;
use crate::numfmt::{decimal_chars, u64_to_decimal};

verus! {

/// The fixed head of every insert statement.
pub open spec fn insert_prefix() -> Seq<char> {
    "INSERT INTO decibel_logs (decibels, fk_device_id, created_at) VALUES "@
}

/// The placeholder group of row `row` (zero-based): three parameters, numbered
/// consecutively from `3 * row + 1`.
pub open spec fn placeholder_group(row: nat) -> Seq<char> {
    "($"@ + decimal_chars(3 * row + 1) + ", $"@ + decimal_chars(3 * row + 2) + ", $"@
        + decimal_chars(3 * row + 3) + ")"@
}

/// The statement that inserts `n` rows in one round trip: the prefix, then
/// `n` placeholder groups separated by commas.
pub open spec fn bulk_insert_sql(n: nat) -> Seq<char>
    decreases n,
{
    if n == 0 {
        insert_prefix()
    } else if n == 1 {
        insert_prefix() + placeholder_group(0)
    } else {
        bulk_insert_sql((n - 1) as nat) + ", "@ + placeholder_group((n - 1) as nat)
    }
}

/// Appends the placeholder group of row `row` to the statement being built.
fn append_placeholder_group(s: &mut String, row: u64)
    requires
        3 * row + 3 <= u64::MAX,
    ensures
        final(s)@ == old(s)@ + placeholder_group(row as nat),
{
    s.append("($");
    let d1 = u64_to_decimal(3 * row + 1);
    s.append(d1.as_str());
    s.append(", $");
    let d2 = u64_to_decimal(3 * row + 2);
    s.append(d2.as_str());
    s.append(", $");
    let d3 = u64_to_decimal(3 * row + 3);
    s.append(d3.as_str());
    s.append(")");
    assert(s@ =~= old(s)@ + placeholder_group(row as nat));
}

/// The statement for the common low-traffic case of a single row, written
/// out once rather than built group by group.
pub fn single_insert_statement() -> (s: String)
    ensures
        s@ == bulk_insert_sql(1),
{
    let s = String::from_str(
        "INSERT INTO decibel_logs (decibels, fk_device_id, created_at) VALUES ($1, $2, $3)",
    );
    proof {
        reveal_strlit(
            "INSERT INTO decibel_logs (decibels, fk_device_id, created_at) VALUES ($1, $2, $3)",
        );
        reveal_strlit("INSERT INTO decibel_logs (decibels, fk_device_id, created_at) VALUES ");
        reveal_strlit("($");
        reveal_strlit(", $");
        reveal_strlit(")");
        assert(s@ =~= bulk_insert_sql(1));
    }
    s
}

/// Builds the statement that inserts `n` rows in one round trip.
pub fn build_bulk_insert(n: usize) -> (s: String)
    requires
        1 <= n,
        3 * n + 3 <= u64::MAX,
    ensures
        s@ == bulk_insert_sql(n as nat),
{
    let mut s = String::from_str(
        "INSERT INTO decibel_logs (decibels, fk_device_id, created_at) VALUES ",
    );
    append_placeholder_group(&mut s, 0);
    assert(s@ =~= bulk_insert_sql(1));
    let mut i: usize = 1;
    while i < n
        invariant
            1 <= i <= n,
            3 * n + 3 <= u64::MAX,
            s@ == bulk_insert_sql(i as nat),
        decreases n - i,
    {
        s.append(", ");
        append_placeholder_group(&mut s, i as u64);
        assert(s@ =~= bulk_insert_sql((i + 1) as nat));
        i = i + 1;
    }
    s
}

} // verus!
