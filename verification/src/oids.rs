//! Identifiers for new types.
use vstd::prelude::*;
use crate::error;
use crate::error::SqlError;
use crate::sets;
use crate::text;
use crate::user_types::{TableType, UserType, UserTypeKind};

verus! {

/// The identifiers that types get: from the first one to before the limit. The
/// version is that of the allocator.
#[derive(Clone, Copy, Debug, PartialEq, Eq, Structural)]
pub struct OidSpace {
    pub first: i64,
    pub limit: i64,
    pub version: u32,
}

/// Where the allocator stands.
#[derive(Clone, Copy, Debug, PartialEq, Eq, Structural)]
pub struct UserTypeOidAllocator {
    pub version: u32,
    pub next_oid: i64,
}

/// A record of the allocator: its key, and what it holds.
#[derive(Debug)]
pub struct UserTypeOidReservation {
    pub id: String,
    pub version: u32,
    pub oid: i64,
}

/// The greatest of the identifiers within the space, or nothing.
pub open spec fn greatest(space: OidSpace, occupied: Seq<i64>) -> int
    decreases occupied.len(),
{
    if occupied.len() == 0 {
        0
    } else {
        let before = greatest(space, occupied.drop_last());
        let last = occupied.last();
        if space.first <= last < space.limit && (last > before || !in_space_before(
            space,
            occupied.drop_last(),
        )) {
            last as int
        } else {
            before
        }
    }
}

/// Whether one of the identifiers is within the space.
pub open spec fn in_space_before(space: OidSpace, occupied: Seq<i64>) -> bool {
    exists|k: int|
        0 <= k < occupied.len() && space.first <= #[trigger] occupied[k] < space.limit
}

/// The first identifier that is given next: after all that are occupied, and not
/// before where the allocator stands.
pub open spec fn first_free(space: OidSpace, next_oid: i64, occupied: Seq<i64>) -> int {
    let after = greatest(space, occupied) + 1;
    let least = if next_oid > space.first {
        next_oid as int
    } else {
        space.first as int
    };
    if after > least {
        after
    } else {
        least
    }
}

pub open spec fn version_error(version: u32, supported: u32) -> error::ErrorView {
    error::invalid_sql_error(
        "user type OID allocator version "@ + text::decimal(version as nat)
            + " is newer than supported version "@ + text::decimal(supported as nat),
    )
}

pub open spec fn exhausted_error() -> error::ErrorView {
    error::invalid_sql_error("user type OID space exhausted"@)
}

/// Where the allocator stands: where it was left, or at the first identifier.
pub open spec fn standing(space: OidSpace, stored: Option<UserTypeOidAllocator>) -> UserTypeOidAllocator {
    match stored {
        Some(a) => a,
        None => UserTypeOidAllocator { version: space.version, next_oid: space.first },
    }
}

/// The identifiers from one on.
pub open spec fn run_of(first: int, count: nat) -> Seq<i64> {
    Seq::new(count, |i: int| (first + i) as i64)
}

/// The identifiers for so many types, and where the allocator stands then.
pub open spec fn allocation(
    space: OidSpace,
    stored: Option<UserTypeOidAllocator>,
    occupied: Seq<i64>,
    count: nat,
) -> Result<(Seq<i64>, Option<UserTypeOidAllocator>), error::ErrorView> {
    let allocator = standing(space, stored);
    let first = first_free(space, allocator.next_oid, occupied);
    if allocator.version > space.version {
        Err(version_error(allocator.version, space.version))
    } else if count > i64::MAX {
        Err(error::invalid_sql_error("too many user type OIDs requested"@))
    } else if count == 0 {
        Ok((Seq::empty(), None))
    } else if first + count > space.limit {
        Err(exhausted_error())
    } else {
        Ok(
            (
                run_of(first, count),
                Some(
                    UserTypeOidAllocator {
                        version: space.version,
                        next_oid: (first + count) as i64,
                    },
                ),
            ),
        )
    }
}

proof fn lemma_greatest(space: OidSpace, occupied: Seq<i64>)
    ensures
        forall|k: int|
            0 <= k < occupied.len() && space.first <= #[trigger] occupied[k] < space.limit
                ==> occupied[k] <= greatest(space, occupied),
        !in_space_before(space, occupied) ==> greatest(space, occupied) == 0,
        in_space_before(space, occupied) ==> space.first <= greatest(space, occupied) < space.limit,
    decreases occupied.len(),
{
    if occupied.len() > 0 {
        let rest = occupied.drop_last();
        lemma_greatest(space, rest);
        assert forall|k: int|
            0 <= k < occupied.len() && space.first <= #[trigger] occupied[k] < space.limit implies occupied[k]
            <= greatest(space, occupied) by {
            if k < rest.len() {
                assert(rest[k] == occupied[k]);
                assert(in_space_before(space, rest));
            }
        }
        if in_space_before(space, occupied) {
            let k = choose|k: int|
                0 <= k < occupied.len() && space.first <= #[trigger] occupied[k] < space.limit;
            if k < rest.len() {
                assert(rest[k] == occupied[k]);
            }
        } else {
            assert(!(space.first <= occupied[occupied.len() - 1] < space.limit));
            if in_space_before(space, rest) {
                let k = choose|k: int|
                    0 <= k < rest.len() && space.first <= #[trigger] rest[k] < space.limit;
                assert(occupied[k] == rest[k]);
            }
        }
    }
}

fn greatest_of(space: OidSpace, occupied: &Vec<i64>) -> (r: i64)
    ensures
        r == greatest(space, occupied@),
        r < i64::MAX,
{
    let mut found = false;
    let mut best: i64 = 0;
    let mut i: usize = 0;
    while i < occupied.len()
        invariant
            i <= occupied.len(),
            best == greatest(space, occupied@.take(i as int)),
            found == in_space_before(space, occupied@.take(i as int)),
            found ==> best < space.limit,
            !found ==> best == 0,
        decreases occupied.len() - i,
    {
        let ghost taken = occupied@.take(i as int);
        let ghost more = occupied@.take(i + 1);
        assert(more.drop_last() =~= taken);
        assert(more.last() == occupied@[i as int]);
        let oid = occupied[i];
        if oid >= space.first && oid < space.limit {
            assert(more[i as int] == oid);
            assert(in_space_before(space, more));
            if oid > best || !found {
                best = oid;
            }
            found = true;
        } else {
            proof {
                if in_space_before(space, more) {
                    let k = choose|k: int|
                        0 <= k < more.len() && space.first <= #[trigger] more[k] < space.limit;
                    assert(taken[k] == more[k]);
                }
                if in_space_before(space, taken) {
                    let k = choose|k: int|
                        0 <= k < taken.len() && space.first <= #[trigger] taken[k] < space.limit;
                    assert(more[k] == taken[k]);
                }
            }
        }
        i = i + 1;
    }
    assert(occupied@.take(occupied@.len() as int) =~= occupied@);
    best
}

/// The identifiers for so many new types, with where the allocator stands after
/// them. None of them is occupied.
pub fn allocate_user_type_oids(
    space: OidSpace,
    stored: Option<UserTypeOidAllocator>,
    occupied: &Vec<i64>,
    count: usize,
) -> (r: Result<(Vec<i64>, Option<UserTypeOidAllocator>), SqlError>)
    ensures
        match (r, allocation(space, stored, occupied@, count as nat)) {
            (Ok((oids, next)), Ok((views, after))) => oids@ == views && next == after,
            (Err(e), Err(view)) => e@ == view,
            _ => false,
        },
{
    let allocator = match stored {
        Some(a) => a,
        None => UserTypeOidAllocator { version: space.version, next_oid: space.first },
    };
    if allocator.version > space.version {
        let actual = text::decimal_text(allocator.version as u64);
        let supported = text::decimal_text(space.version as u64);
        let most = text::concat3(
            "user type OID allocator version ",
            actual.as_str(),
            " is newer than supported version ",
        );
        return Err(SqlError::invalid_sql(text::concat(most.as_str(), supported.as_str())));
    }
    if count as u128 > i64::MAX as u128 {
        return Err(SqlError::invalid_sql("too many user type OIDs requested".to_owned()));
    }
    if count == 0 {
        let none: Vec<i64> = Vec::new();
        assert(none@ =~= Seq::empty());
        return Ok((none, None));
    }
    let after = greatest_of(space, occupied) + 1;
    let least = if allocator.next_oid > space.first {
        allocator.next_oid
    } else {
        space.first
    };
    let first = if after > least {
        after
    } else {
        least
    };
    let end = match first.checked_add(count as i64) {
        Some(end) => end,
        None => {
            return Err(SqlError::invalid_sql("user type OID space exhausted".to_owned()));
        },
    };
    if end > space.limit {
        return Err(SqlError::invalid_sql("user type OID space exhausted".to_owned()));
    }
    let mut oids: Vec<i64> = Vec::new();
    let mut next: i64 = first;
    while next < end
        invariant
            first <= next <= end,
            end == first + count,
            oids@.len() == next - first,
            forall|k: int| 0 <= k < oids@.len() ==> #[trigger] oids@[k] == first + k,
        decreases end - next,
    {
        oids.push(next);
        next = next + 1;
    }
    assert(oids@ =~= run_of(first as int, count as nat));
    Ok((oids, Some(UserTypeOidAllocator { version: space.version, next_oid: end })))
}

/// Identifiers that are given are new: within the space, each other than the
/// others, and none of them occupied.
pub proof fn law_allocation_is_fresh(
    space: OidSpace,
    stored: Option<UserTypeOidAllocator>,
    occupied: Seq<i64>,
    count: nat,
)
    requires
        allocation(space, stored, occupied, count) is Ok,
    ensures
        ({
            let oids = (allocation(space, stored, occupied, count)->Ok_0).0;
            &&& oids.len() == count
            &&& oids.no_duplicates()
            &&& forall|k: int|
                0 <= k < oids.len() ==> space.first <= #[trigger] oids[k] < space.limit
                    && !occupied.contains(oids[k])
        }),
{
    let allocator = standing(space, stored);
    let first = first_free(space, allocator.next_oid, occupied);
    let oids = (allocation(space, stored, occupied, count)->Ok_0).0;
    lemma_greatest(space, occupied);
    if count > 0 {
        assert forall|k: int| 0 <= k < oids.len() implies space.first <= #[trigger] oids[k]
            < space.limit && !occupied.contains(oids[k]) by {
            assert(oids[k] == first + k);
            if occupied.contains(oids[k]) {
                let j = choose|j: int| 0 <= j < occupied.len() && occupied[j] == oids[k];
                assert(space.first <= occupied[j] < space.limit);
            }
        }
        assert forall|i: int, j: int| 0 <= i < j < oids.len() implies oids[i] != oids[j] by {
            assert(oids[i] == first + i);
            assert(oids[j] == first + j);
        }
    }
}

/// What is given later is never what was given before, even where that is not
/// occupied any more.
pub proof fn law_allocations_differ(
    space: OidSpace,
    stored: Option<UserTypeOidAllocator>,
    occupied: Seq<i64>,
    count: nat,
    later_occupied: Seq<i64>,
    later_count: nat,
)
    requires
        count > 0,
        allocation(space, stored, occupied, count) is Ok,
        allocation(
            space,
            (allocation(space, stored, occupied, count)->Ok_0).1,
            later_occupied,
            later_count,
        ) is Ok,
    ensures
        ({
            let before = allocation(space, stored, occupied, count)->Ok_0;
            let after = allocation(space, before.1, later_occupied, later_count)->Ok_0;
            forall|i: int, j: int|
                0 <= i < (before.0).len() && 0 <= j < (after.0).len() ==> #[trigger] (before.0)[i]
                    < #[trigger] (after.0)[j]
        }),
{
    let before = allocation(space, stored, occupied, count)->Ok_0;
    let first = first_free(space, standing(space, stored).next_oid, occupied);
    lemma_greatest(space, occupied);
    if later_count > 0 {
        let later = first_free(space, (before.1->0).next_oid, later_occupied);
        assert(later >= first + count);
        let after = allocation(space, before.1, later_occupied, later_count)->Ok_0;
        assert forall|i: int, j: int|
            0 <= i < (before.0).len() && 0 <= j < (after.0).len() implies #[trigger] (before.0)[i]
            < #[trigger] (after.0)[j] by {
            assert((before.0)[i] == first + i);
            assert((after.0)[j] == later + j);
        }
    }
}

pub open spec fn key_error(id: Seq<char>) -> error::ErrorView {
    error::invalid_sql_error("invalid user type OID reservation key "@ + id)
}

pub open spec fn metadata_error(id: Seq<char>) -> error::ErrorView {
    error::invalid_sql_error("invalid user type OID reservation metadata for "@ + id)
}

/// The identifier that the key of a record names.
pub open spec fn reserved(id: Seq<char>) -> Option<int> {
    if text::starts_with(id, "oid:"@) {
        match text::signed_value(id.skip("oid:"@.len() as int)) {
            Some(n) => if i64::MIN <= n <= i64::MAX {
                Some(n)
            } else {
                None
            },
            None => None,
        }
    } else {
        None
    }
}

/// What is wrong with a record of the allocator.
pub open spec fn reservation_error(space: OidSpace, r: UserTypeOidReservation) -> Option<
    error::ErrorView,
> {
    if r.id@ == "allocator"@ {
        None
    } else {
        match reserved(r.id@) {
            None => Some(key_error(r.id@)),
            Some(n) => if r.version > space.version || r.oid != n {
                Some(metadata_error(r.id@))
            } else {
                None
            },
        }
    }
}

/// What is wrong with the first record that something is wrong with.
pub open spec fn first_error(space: OidSpace, list: Seq<UserTypeOidReservation>, from: int) -> Option<
    error::ErrorView,
>
    decreases list.len() - from,
{
    if from < 0 || from >= list.len() {
        None
    } else if reservation_error(space, list[from]) is Some {
        reservation_error(space, list[from])
    } else {
        first_error(space, list, from + 1)
    }
}

/// Whether a record reserves an identifier.
pub open spec fn reserves(r: UserTypeOidReservation, oid: i64) -> bool {
    r.id@ != "allocator"@ && reserved(r.id@) == Some(oid as int)
}

/// Whether a type uses an identifier: for itself, for arrays, for a label or for
/// the relation of its attributes.
pub open spec fn uses(t: UserType, oid: i64) -> bool {
    t.oid == oid || t.array_oid == oid || (match t.kind {
        UserTypeKind::Enumeration { labels } => exists|k: int|
            0 <= k < labels@.len() && (#[trigger] labels@[k]).oid == oid,
        UserTypeKind::Composite { relation_oid, .. } => relation_oid == oid,
        _ => false,
    })
}

/// Whether an identifier is occupied.
pub open spec fn is_occupied(
    reservations: Seq<UserTypeOidReservation>,
    types: Seq<UserType>,
    tables: Seq<TableType>,
    oid: i64,
) -> bool {
    ||| exists|k: int| 0 <= k < reservations.len() && reserves(#[trigger] reservations[k], oid)
    ||| exists|k: int| 0 <= k < types.len() && uses(#[trigger] types[k], oid)
    ||| exists|k: int|
        0 <= k < tables.len() && ((#[trigger] tables[k]).row_type_oid == oid
            || tables[k].row_array_type_oid == oid)
}

fn check_reservation(space: OidSpace, r: &UserTypeOidReservation) -> (out: Result<
    Option<i64>,
    SqlError,
>)
    ensures
        match (out, reservation_error(space, *r)) {
            (Ok(oid), None) => forall|x: i64| reserves(*r, x) <==> oid == Some(x),
            (Err(e), Some(view)) => e@ == view,
            _ => false,
        },
{
    if text::text_eq(r.id.as_str(), "allocator") {
        return Ok(None);
    }
    let number = match text::without_prefix(r.id.as_str(), "oid:") {
        Some(rest) => text::parse_signed(rest.as_str()),
        None => None,
    };
    match number {
        None => Err(
            SqlError::invalid_sql(
                text::concat("invalid user type OID reservation key ", r.id.as_str()),
            ),
        ),
        Some(n) => {
            if r.version > space.version || r.oid != n {
                return Err(
                    SqlError::invalid_sql(
                        text::concat("invalid user type OID reservation metadata for ", r.id.as_str()),
                    ),
                );
            }
            Ok(Some(n))
        },
    }
}

fn add_reserved(space: OidSpace, list: &Vec<UserTypeOidReservation>) -> (r: Result<
    Vec<i64>,
    SqlError,
>)
    ensures
        match (r, first_error(space, list@, 0)) {
            (Ok(oids), None) => forall|x: i64| #[trigger]
                oids@.contains(x) <==> exists|k: int|
                    0 <= k < list@.len() && reserves(#[trigger] list@[k], x),
            (Err(e), Some(view)) => e@ == view,
            _ => false,
        },
{
    let mut out: Vec<i64> = Vec::new();
    let mut i: usize = 0;
    while i < list.len()
        invariant
            i <= list.len(),
            first_error(space, list@, 0) == first_error(space, list@, i as int),
            forall|x: i64| #[trigger]
                out@.contains(x) <==> exists|k: int|
                    0 <= k < i && reserves(#[trigger] list@[k], x),
        decreases list.len() - i,
    {
        let ghost before = out@;
        match check_reservation(space, &list[i]) {
            Ok(oid) => {
                match oid {
                    Some(n) => sets::add_number(&mut out, n),
                    None => {},
                }
                proof {
                    assert forall|x: i64| #[trigger] out@.contains(x) <==> exists|k: int|
                        0 <= k < i + 1 && reserves(#[trigger] list@[k], x) by {
                        assert(reserves(list@[i as int], x) <==> oid == Some(x));
                        if oid is Some {
                            sets::law_added_contains(before, oid->0, x);
                        }
                        assert(before.contains(x) <==> exists|k: int|
                            0 <= k < i && reserves(#[trigger] list@[k], x));
                    }
                }
            },
            Err(e) => {
                return Err(e);
            },
        }
        i = i + 1;
    }
    Ok(out)
}

fn add_labels(out: &mut Vec<i64>, t: &UserType)
    ensures
        forall|x: i64| #[trigger]
            final(out)@.contains(x) <==> old(out)@.contains(x) || uses(*t, x),
{
    let ghost given = out@;
    sets::add_number(out, t.oid);
    let ghost one = out@;
    sets::add_number(out, t.array_oid);
    let ghost two = out@;
    assert forall|x: i64| #[trigger] two.contains(x) <==> given.contains(x) || t.oid == x
        || t.array_oid == x by {
        sets::law_added_contains(given, t.oid, x);
        sets::law_added_contains(one, t.array_oid, x);
    }
    match &t.kind {
        UserTypeKind::Enumeration { labels } => {
            let mut i: usize = 0;
            while i < labels.len()
                invariant
                    i <= labels.len(),
                    forall|x: i64| #[trigger]
                        out@.contains(x) <==> two.contains(x) || exists|k: int|
                            0 <= k < i && (#[trigger] labels@[k]).oid == x,
                decreases labels.len() - i,
            {
                let ghost before = out@;
                sets::add_number(out, labels[i].oid);
                proof {
                    assert forall|x: i64| #[trigger] out@.contains(x) <==> two.contains(x)
                        || exists|k: int| 0 <= k < i + 1 && (#[trigger] labels@[k]).oid == x by {
                        sets::law_added_contains(before, labels@[i as int].oid, x);
                        assert(before.contains(x) <==> two.contains(x) || exists|k: int|
                            0 <= k < i && (#[trigger] labels@[k]).oid == x);
                    }
                }
                i = i + 1;
            }
        },
        UserTypeKind::Composite { relation_oid, .. } => {
            sets::add_number(out, *relation_oid);
            assert forall|x: i64| #[trigger] out@.contains(x) <==> two.contains(x)
                || *relation_oid == x by {
                sets::law_added_contains(two, *relation_oid, x);
            }
        },
        _ => {},
    }
}

/// The identifiers that are occupied: those that are reserved, and those that
/// types and the rows of tables use.
pub fn occupied_user_type_oids(
    space: OidSpace,
    reservations: &Vec<UserTypeOidReservation>,
    types: &Vec<UserType>,
    tables: &Vec<TableType>,
) -> (r: Result<Vec<i64>, SqlError>)
    ensures
        match (r, first_error(space, reservations@, 0)) {
            (Ok(oids), None) => forall|x: i64| #[trigger]
                oids@.contains(x) <==> is_occupied(reservations@, types@, tables@, x),
            (Err(e), Some(view)) => e@ == view,
            _ => false,
        },
{
    let mut out = match add_reserved(space, reservations) {
        Ok(oids) => oids,
        Err(e) => {
            return Err(e);
        },
    };
    let ghost first = out@;
    let mut i: usize = 0;
    while i < types.len()
        invariant
            i <= types.len(),
            forall|x: i64| #[trigger]
                out@.contains(x) <==> first.contains(x) || exists|k: int|
                    0 <= k < i && uses(#[trigger] types@[k], x),
        decreases types.len() - i,
    {
        let ghost before = out@;
        add_labels(&mut out, &types[i]);
        proof {
            assert forall|x: i64| #[trigger] out@.contains(x) <==> first.contains(x)
                || exists|k: int| 0 <= k < i + 1 && uses(#[trigger] types@[k], x) by {
                assert(before.contains(x) <==> first.contains(x) || exists|k: int|
                    0 <= k < i && uses(#[trigger] types@[k], x));
                assert(out@.contains(x) <==> before.contains(x) || uses(types@[i as int], x));
            }
        }
        i = i + 1;
    }
    let ghost second = out@;
    let mut j: usize = 0;
    while j < tables.len()
        invariant
            j <= tables.len(),
            forall|x: i64| #[trigger]
                out@.contains(x) <==> second.contains(x) || exists|k: int|
                    0 <= k < j && ((#[trigger] tables@[k]).row_type_oid == x
                        || tables@[k].row_array_type_oid == x),
        decreases tables.len() - j,
    {
        let ghost before = out@;
        sets::add_number(&mut out, tables[j].row_type_oid);
        let ghost between = out@;
        sets::add_number(&mut out, tables[j].row_array_type_oid);
        proof {
            assert forall|x: i64| #[trigger] out@.contains(x) <==> second.contains(x)
                || exists|k: int|
                0 <= k < j + 1 && ((#[trigger] tables@[k]).row_type_oid == x
                    || tables@[k].row_array_type_oid == x) by {
                sets::law_added_contains(before, tables@[j as int].row_type_oid, x);
                sets::law_added_contains(between, tables@[j as int].row_array_type_oid, x);
                assert(before.contains(x) <==> second.contains(x) || exists|k: int|
                    0 <= k < j && ((#[trigger] tables@[k]).row_type_oid == x
                        || tables@[k].row_array_type_oid == x));
            }
        }
        j = j + 1;
    }
    proof {
        assert forall|x: i64| #[trigger] out@.contains(x) <==> is_occupied(
            reservations@,
            types@,
            tables@,
            x,
        ) by {
            assert(second.contains(x) <==> first.contains(x) || exists|k: int|
                0 <= k < types@.len() && uses(#[trigger] types@[k], x));
            assert(first.contains(x) <==> exists|k: int|
                0 <= k < reservations@.len() && reserves(#[trigger] reservations@[k], x));
        }
    }
    Ok(out)
}

} // verus!
