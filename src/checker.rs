use vstd::prelude::*;

verus! {

/// The checker cell at lattice point `(x, y, z)` shows the even texture exactly
/// when the coordinate sum is even.
pub open spec fn checker_even(x: int, y: int, z: int) -> bool {
    (x + y + z) % 2 == 0
}

/// Decides which of the two textures a checker shows at the lattice cell whose
/// floored, scaled coordinates are `(x, y, z)`: `true` for the even one.
pub fn checker_is_even(x: i32, y: i32, z: i32) -> (r: bool)
    ensures
        r == checker_even(x as int, y as int, z as int),
{
    let sum: i64 = x as i64 + y as i64 + z as i64;
    sum % 2 == 0
}

/// Moving the lattice point by `(dx, dy, dz)` keeps the checker's choice exactly
/// when `dx + dy + dz` is even, and flips it otherwise: along any single axis the
/// two textures alternate cell by cell.
pub proof fn checker_alternates(x: int, y: int, z: int, dx: int, dy: int, dz: int)
    ensures
        checker_even(x + dx, y + dy, z + dz) == checker_even(x, y, z) <==> (dx + dy + dz) % 2 == 0,
{
}

/// One cell step along any single axis flips the checker's choice, and two
/// steps along it bring the same choice back.
pub proof fn checker_step_flips(x: int, y: int, z: int)
    ensures
        checker_even(x + 1, y, z) != checker_even(x, y, z),
        checker_even(x, y + 1, z) != checker_even(x, y, z),
        checker_even(x, y, z + 1) != checker_even(x, y, z),
        checker_even(x + 2, y, z) == checker_even(x, y, z),
        checker_even(x, y + 2, z) == checker_even(x, y, z),
        checker_even(x, y, z + 2) == checker_even(x, y, z),
{
}

} // verus!
