//! The ordering key: a 64-bit Morton code of a row's spatial cell and date,
//! and the sort of a batch by that key.

use crate::number::{parse_u64, parses_as_u64, u64_value};
use crate::row::FlatRow;
use std::collections::hash_map::DefaultHasher;
use std::hash::Hasher;
use std::num::ParseIntError;
use vstd::prelude::*;
use vstd::std_specs::hash::DefaultHasherAdditionalSpecFns;
use vstd::utf8::encode_utf8;

verus! {

/// The low 32 bits of a 64-bit value.
pub open spec fn low_bits(x: u64) -> u32 {
    (x % 0x1_0000_0000) as u32
}

/// The low `count` bits of `x` with a zero bit inserted before each of them:
/// bit `i` of `x` becomes bit `2 * i` of the result.
pub open spec fn spread_bits(x: u32, count: u32) -> u64
    decreases count,
{
    if count == 0 {
        0
    } else {
        ((x & 1) as u64) | (spread_bits(x >> 1, (count - 1) as u32) << 2)
    }
}

/// All 32 bits of `x` spread over the even bits of a 64-bit value.
pub open spec fn spread(x: u32) -> u64 {
    spread_bits(x, 32)
}

/// The Morton code of two 32-bit values: the bits of `a` on the odd
/// positions and the bits of `b` on the even positions.
pub open spec fn interleave(a: u32, b: u32) -> u64 {
    (spread(a) << 1) | spread(b)
}

/// Whether a token is a base-16 number that fits in 64 bits: an optional
/// plus sign, then one or more hexadecimal digits and nothing else.
pub open spec fn parses_as_hex(token: Seq<char>) -> bool {
    parses_as_u64(token, 16)
}

/// The number that a well-formed token denotes.
pub open spec fn hex_value(token: Seq<char>) -> u64 {
    u64_value(token, 16)
}

/// The hash of a token's text: the standard hasher's result after the
/// token's bytes and the byte that ends a string.
pub open spec fn token_hash(token: Seq<char>) -> u64 {
    DefaultHasher::spec_finish(seq![encode_utf8(token), seq![0xFFu8]])
}

/// The 32 bits that stand for a spatial cell token: the low bits of its
/// number where it is one, and the low bits of its text's hash where not.
pub open spec fn spatial_bits(token: Seq<char>) -> u32 {
    if parses_as_hex(token) {
        low_bits(hex_value(token))
    } else {
        low_bits(token_hash(token))
    }
}

/// The ordering key of a spatial cell token and a date identifier.
pub open spec fn z_key_for(token: Seq<char>, date: u64) -> u64 {
    interleave(spatial_bits(token), low_bits(date))
}

/// The text of a row's spatial cell token; empty where the row has none.
pub open spec fn token_of(row: FlatRow) -> Seq<char> {
    match row.h3_res3 {
        Some(token) => token@,
        None => Seq::empty(),
    }
}

/// A row's date identifier; zero where the row has none.
pub open spec fn date_of(row: FlatRow) -> u64 {
    match row.date_id {
        Some(date) => date,
        None => 0,
    }
}

/// The ordering key that belongs to a row.
pub open spec fn z_key_of(row: FlatRow) -> u64 {
    z_key_for(token_of(row), date_of(row))
}

/// The row with its ordering key filled in.
pub open spec fn keyed(row: FlatRow) -> FlatRow {
    FlatRow { z_key: Some(z_key_of(row)), ..row }
}

/// A batch with every row's ordering key filled in.
pub open spec fn keyed_rows(rows: Seq<FlatRow>) -> Seq<FlatRow> {
    rows.map_values(|row: FlatRow| keyed(row))
}

/// The key that a batch is sorted by: the row's ordering key, and zero for a
/// row that has none yet.
pub open spec fn sort_key(row: FlatRow) -> u64 {
    match row.z_key {
        Some(key) => key,
        None => 0,
    }
}

/// Whether the rows stand in ascending order of their keys.
pub open spec fn ascending(rows: Seq<FlatRow>) -> bool {
    forall|i: int, j: int|
        0 <= i <= j < rows.len() ==> sort_key(#[trigger] rows[i]) <= sort_key(#[trigger] rows[j])
}

/// The rows that have the given key, in the order in which they stand.
pub open spec fn rows_with_key(rows: Seq<FlatRow>, key: u64) -> Seq<FlatRow>
    decreases rows.len(),
{
    if rows.len() == 0 {
        Seq::empty()
    } else {
        let earlier = rows_with_key(rows.drop_last(), key);
        if sort_key(rows.last()) == key {
            earlier.push(rows.last())
        } else {
            earlier
        }
    }
}

/// Whether `output` is `input` sorted by key, with rows of equal key left in
/// the order in which `input` has them. There is exactly one such `output`:
/// see `stable_sort_is_unique`.
pub open spec fn is_stable_sort(input: Seq<FlatRow>, output: Seq<FlatRow>) -> bool {
    &&& output.len() == input.len()
    &&& output.to_multiset() == input.to_multiset()
    &&& ascending(output)
    &&& forall|key: u64| #[trigger] rows_with_key(output, key) == rows_with_key(input, key)
}

/// The number of rows whose spatial cell token is not a base-16 number, so
/// that their key rests on the fallback hash.
pub open spec fn malformed_count(rows: Seq<FlatRow>) -> nat
    decreases rows.len(),
{
    if rows.len() == 0 {
        0
    } else {
        malformed_count(rows.drop_last()) + if parses_as_hex(token_of(rows.last())) {
            0nat
        } else {
            1nat
        }
    }
}

/// Keeps the low 32 bits of `x` and discards the rest.
pub fn low32(x: u64) -> (r: u32)
    ensures
        r == low_bits(x),
{
    assert(x & 0xFFFF_FFFF == x % 0x1_0000_0000) by (bit_vector);
    assert((x & 0xFFFF_FFFF) < 0x1_0000_0000) by (bit_vector);
    (x & 0xFFFF_FFFF) as u32
}

/// Spreads the bits of `x`: inserts a zero bit before each of them.
pub fn part1by1(x: u32) -> (r: u64)
    ensures
        r == spread(x),
{
    let x0: u64 = x as u64;
    let x1: u64 = (x0 | (x0 << 16)) & 0x0000_FFFF_0000_FFFF;
    let x2: u64 = (x1 | (x1 << 8)) & 0x00FF_00FF_00FF_00FF;
    let x3: u64 = (x2 | (x2 << 4)) & 0x0F0F_0F0F_0F0F_0F0F;
    let x4: u64 = (x3 | (x3 << 2)) & 0x3333_3333_3333_3333;
    let x5: u64 = (x4 | (x4 << 1)) & 0x5555_5555_5555_5555;
    assert(x5 == spread_bits(x, 32)) by (bit_vector)
        requires
            x0 == x as u64,
            x1 == (x0 | (x0 << 16)) & 0x0000_FFFF_0000_FFFF,
            x2 == (x1 | (x1 << 8)) & 0x00FF_00FF_00FF_00FF,
            x3 == (x2 | (x2 << 4)) & 0x0F0F_0F0F_0F0F_0F0F,
            x4 == (x3 | (x3 << 2)) & 0x3333_3333_3333_3333,
            x5 == (x4 | (x4 << 1)) & 0x5555_5555_5555_5555,
    ;
    x5
}

/// The 64-bit Morton code of two 32-bit values.
pub fn morton2(a: u32, b: u32) -> (key: u64)
    ensures
        key == interleave(a, b),
{
    (part1by1(a) << 1) | part1by1(b)
}

/// Reads a spatial cell token as a base-16 number and keeps its low 32 bits.
///
/// Fails exactly on a token that is not a base-16 number of at most 64 bits.
pub fn h3_str_to_u32(h3: &str) -> (r: Result<u32, ParseIntError>)
    ensures
        r is Ok <==> parses_as_hex(h3@),
        r matches Ok(bits) ==> bits == low_bits(hex_value(h3@)),
{
    match parse_u64(h3, 16) {
        Ok(full) => Ok(low32(full)),
        Err(e) => Err(e),
    }
}

/// Hashes a token's text with the standard hasher.
pub fn hash_token(token: &str) -> (hash: u64)
    ensures
        hash == token_hash(token@),
{
    let mut hasher = DefaultHasher::new();
    let text = token.as_bytes();
    hasher.write(text);
    let end: [u8; 1] = [0xFF];
    let last = end.as_slice();
    hasher.write(last);
    proof {
        assert(text@ == encode_utf8(token@));
        assert(last@ =~= seq![0xFFu8]);
        assert(hasher@ =~= seq![encode_utf8(token@), seq![0xFFu8]]);
    }
    hasher.finish()
}

/// The 32 bits that stand for a spatial cell token, and whether they had to
/// be taken from the fallback hash because the token is malformed.
pub fn spatial_dimension(token: &str) -> (r: (u32, bool))
    ensures
        r.0 == spatial_bits(token@),
        r.1 == !parses_as_hex(token@),
{
    match h3_str_to_u32(token) {
        Ok(bits) => (bits, false),
        Err(_) => (low32(hash_token(token)), true),
    }
}

/// The ordering key of a spatial cell token and a date identifier.
pub fn z_key(token: &str, date: u64) -> (key: u64)
    ensures
        key == z_key_for(token@, date),
{
    let (cell, _) = spatial_dimension(token);
    morton2(cell, low32(date))
}

/// A row's date identifier, or zero.
pub fn row_date(row: &FlatRow) -> (date: u64)
    ensures
        date == date_of(*row),
{
    match row.date_id {
        Some(date) => date,
        None => 0,
    }
}

/// The ordering key that belongs to a row.
pub fn row_z_key(row: &FlatRow) -> (key: u64)
    ensures
        key == z_key_of(*row),
{
    let date = row_date(row);
    match &row.h3_res3 {
        Some(token) => z_key(token.as_str(), date),
        None => {
            proof {
                reveal_strlit("");
                assert(""@ =~= Seq::<char>::empty());
            }
            z_key("", date)
        },
    }
}

/// Whether a row's spatial cell token is malformed.
pub fn row_is_malformed(row: &FlatRow) -> (malformed: bool)
    ensures
        malformed == !parses_as_hex(token_of(*row)),
{
    match &row.h3_res3 {
        Some(token) => h3_str_to_u32(token.as_str()).is_err(),
        None => {
            proof {
                reveal_strlit("");
                assert(""@ =~= Seq::<char>::empty());
            }
            h3_str_to_u32("").is_err()
        },
    }
}

/// Counts the rows of a batch whose spatial cell token is malformed, which
/// is a sign of poor data: their keys do not reflect where the rows lie.
pub fn count_malformed(records: &Vec<FlatRow>) -> (count: usize)
    ensures
        count == malformed_count(records@),
{
    let n: usize = records.len();
    let mut count: usize = 0;
    let mut i: usize = 0;
    while i < n
        invariant
            i <= n,
            n == records@.len(),
            count <= i,
            count == malformed_count(records@.take(i as int)),
        decreases n - i,
    {
        proof {
            let next = records@.take(i + 1);
            assert(next.drop_last() == records@.take(i as int));
            assert(next.last() == records@[i as int]);
        }
        if row_is_malformed(&records[i]) {
            count += 1;
        }
        i += 1;
    }
    assert(records@.take(n as int) == records@);
    count
}

/// The key that a row is sorted by.
pub fn row_sort_key(row: &FlatRow) -> (key: u64)
    ensures
        key == sort_key(*row),
{
    match row.z_key {
        Some(key) => key,
        None => 0,
    }
}

/// Calls the standard library's `sort_by_key` on the rows, with the rows'
/// sort key as the key.
///
/// Taken on trust from the standard library's documentation: the slice is
/// reordered in place, afterwards stands in ascending order of the key, and
/// elements of equal key keep their order.
#[verifier::external_body]
fn sort_by_z_key(rows: &mut Vec<FlatRow>)
    ensures
        is_stable_sort(old(rows)@, final(rows)@),
{
    rows.sort_by_key(|row| row_sort_key(row));
}

/// Computes every row's ordering key and sorts the batch by it.
///
/// The result holds the rows that were given, each with its key filled in,
/// in ascending order of the key; rows of equal key keep their order.
pub fn z_order_records(records: Vec<FlatRow>) -> (out: Vec<FlatRow>)
    ensures
        is_stable_sort(keyed_rows(records@), out@),
        out@.len() == records@.len(),
{
    let mut rows = records;
    let n: usize = rows.len();
    let mut i: usize = 0;
    while i < n
        invariant
            i <= n,
            n == records@.len(),
            rows@.len() == n,
            forall|k: int| 0 <= k < i ==> #[trigger] rows@[k] == keyed(records@[k]),
            forall|k: int| i <= k < n ==> #[trigger] rows@[k] == records@[k],
        decreases n - i,
    {
        let key = row_z_key(&rows[i]);
        rows[i].z_key = Some(key);
        i += 1;
    }
    assert(rows@ =~= keyed_rows(records@));
    sort_by_z_key(&mut rows);
    rows
}

/// The rows with a given key all have that key and all stand among the rows.
proof fn rows_with_key_are_members(rows: Seq<FlatRow>, key: u64)
    ensures
        forall|i: int|
            0 <= i < rows_with_key(rows, key).len() ==> sort_key(
                #[trigger] rows_with_key(rows, key)[i],
            ) == key && rows.contains(rows_with_key(rows, key)[i]),
    decreases rows.len(),
{
    if rows.len() > 0 {
        let shorter = rows.drop_last();
        rows_with_key_are_members(shorter, key);
        let found = rows_with_key(rows, key);
        assert forall|i: int| 0 <= i < found.len() implies sort_key(#[trigger] found[i]) == key
            && rows.contains(found[i]) by {
            if i < rows_with_key(shorter, key).len() {
                let row = rows_with_key(shorter, key)[i];
                assert(found[i] == row);
                assert(shorter.contains(row));
                let at = choose|at: int| 0 <= at < shorter.len() && shorter[at] == row;
                assert(rows[at] == row);
            } else {
                assert(found[i] == rows.last());
                assert(rows[rows.len() - 1] == rows.last());
            }
        }
    }
}

/// Two sequences in ascending order that hold, for every key, the same rows
/// in the same order are the same sequence.
proof fn same_rows_by_key_same_order(a: Seq<FlatRow>, b: Seq<FlatRow>)
    requires
        a.len() == b.len(),
        ascending(a),
        ascending(b),
        forall|key: u64| #[trigger] rows_with_key(a, key) == rows_with_key(b, key),
    ensures
        a == b,
    decreases a.len(),
{
    if a.len() == 0 {
        assert(a =~= b);
    } else {
        let x = a.last();
        let y = b.last();
        let kx = sort_key(x);
        let ky = sort_key(y);
        let shorter_a = a.drop_last();
        let shorter_b = b.drop_last();
        assert(rows_with_key(a, kx) == rows_with_key(shorter_a, kx).push(x));
        assert(rows_with_key(b, ky) == rows_with_key(shorter_b, ky).push(y));
        assert(kx <= ky) by {
            rows_with_key_are_members(b, kx);
            let found = rows_with_key(b, kx);
            assert(found == rows_with_key(a, kx));
            assert(found.len() > 0);
            let row = found[0];
            assert(b.contains(row));
            let at = choose|at: int| 0 <= at < b.len() && b[at] == row;
            assert(sort_key(b[at]) <= sort_key(b[b.len() - 1]));
        }
        assert(ky <= kx) by {
            rows_with_key_are_members(a, ky);
            let found = rows_with_key(a, ky);
            assert(found == rows_with_key(b, ky));
            assert(found.len() > 0);
            let row = found[0];
            assert(a.contains(row));
            let at = choose|at: int| 0 <= at < a.len() && a[at] == row;
            assert(sort_key(a[at]) <= sort_key(a[a.len() - 1]));
        }
        assert(x == y) by {
            assert(rows_with_key(a, kx) == rows_with_key(b, kx));
            assert(rows_with_key(shorter_a, kx).push(x).last() == x);
            assert(rows_with_key(shorter_b, kx).push(y).last() == y);
        }
        assert forall|key: u64| #[trigger]
            rows_with_key(shorter_a, key) == rows_with_key(shorter_b, key) by {
            assert(rows_with_key(a, key) == rows_with_key(b, key));
            if key == kx {
                let pa = rows_with_key(shorter_a, key);
                let pb = rows_with_key(shorter_b, key);
                assert(pa.push(x).drop_last() == pa);
                assert(pb.push(y).drop_last() == pb);
            }
        }
        assert(ascending(shorter_a)) by {
            assert forall|i: int, j: int| 0 <= i <= j < shorter_a.len() implies sort_key(
                #[trigger] shorter_a[i],
            ) <= sort_key(#[trigger] shorter_a[j]) by {
                assert(sort_key(a[i]) <= sort_key(a[j]));
            }
        }
        assert(ascending(shorter_b)) by {
            assert forall|i: int, j: int| 0 <= i <= j < shorter_b.len() implies sort_key(
                #[trigger] shorter_b[i],
            ) <= sort_key(#[trigger] shorter_b[j]) by {
                assert(sort_key(b[i]) <= sort_key(b[j]));
            }
        }
        same_rows_by_key_same_order(shorter_a, shorter_b);
        assert(a =~= shorter_a.push(x));
        assert(b =~= shorter_b.push(y));
    }
}

/// A batch has one stable sort and no other: the contract of the sort
/// leaves nothing open.
pub proof fn stable_sort_is_unique(input: Seq<FlatRow>, first: Seq<FlatRow>, second: Seq<FlatRow>)
    requires
        is_stable_sort(input, first),
        is_stable_sort(input, second),
    ensures
        first == second,
{
    assert forall|key: u64| #[trigger] rows_with_key(first, key) == rows_with_key(second, key) by {
        assert(rows_with_key(first, key) == rows_with_key(input, key));
        assert(rows_with_key(second, key) == rows_with_key(input, key));
    }
    same_rows_by_key_same_order(first, second);
}

/// Ordering a batch twice gives the same batch: the result depends on the
/// rows that were given and on nothing else.
pub proof fn z_order_is_deterministic(records: Seq<FlatRow>, first: Seq<FlatRow>, second: Seq<FlatRow>)
    requires
        is_stable_sort(keyed_rows(records), first),
        is_stable_sort(keyed_rows(records), second),
    ensures
        first == second,
{
    stable_sort_is_unique(keyed_rows(records), first, second);
}

/// Rows with the same spatial cell token and the same date identifier get
/// the same ordering key: the key depends on nothing else.
pub proof fn same_dimensions_same_key(a: FlatRow, b: FlatRow)
    requires
        token_of(a) == token_of(b),
        date_of(a) == date_of(b),
    ensures
        z_key_of(a) == z_key_of(b),
        keyed(a).z_key == keyed(b).z_key,
{
}

/// Spreading puts bit `i` of the input on bit `2 * i` of the result and
/// leaves every odd bit zero.
pub proof fn spread_places_bits(x: u32, i: u32)
    by (bit_vector)
    requires
        i < 32,
    ensures
        (spread(x) >> ((2 * i) as u64)) & 1 == ((x >> i) & 1) as u64,
        (spread(x) >> ((2 * i + 1) as u64)) & 1 == 0,
{
}

/// The Morton code holds bit `i` of the second value on bit `2 * i` and bit
/// `i` of the first value on bit `2 * i + 1`.
pub proof fn interleave_places_bits(a: u32, b: u32, i: u32)
    by (bit_vector)
    requires
        i < 32,
    ensures
        (interleave(a, b) >> ((2 * i) as u64)) & 1 == ((b >> i) & 1) as u64,
        (interleave(a, b) >> ((2 * i + 1) as u64)) & 1 == ((a >> i) & 1) as u64,
{
}

/// Different pairs of values have different Morton codes.
pub proof fn interleave_is_injective(a1: u32, b1: u32, a2: u32, b2: u32)
    by (bit_vector)
    requires
        interleave(a1, b1) == interleave(a2, b2),
    ensures
        a1 == a2,
        b1 == b2,
{
}

/// Where one of the two values is the same, the Morton codes are ordered as
/// the other value is. Where both differ, nothing of the kind holds.
pub proof fn interleave_orders_one_dimension(a: u32, b1: u32, b2: u32)
    by (bit_vector)
    requires
        b1 < b2,
    ensures
        interleave(a, b1) < interleave(a, b2),
        interleave(b1, a) < interleave(b2, a),
{
}

} // verus!
