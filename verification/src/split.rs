//! Cutting a file into parts of bounded size, and joining parts again.

use vstd::arithmetic::div_mod::{
    lemma_fundamental_div_mod,
    lemma_fundamental_div_mod_converse_div,
};
use vstd::prelude::*;
use vstd::slice::{slice_subrange, slice_to_vec};

verus! {

/// The number of parts that a file of `len` bytes is cut into when no part
/// may exceed `ceiling` bytes: `len / ceiling`, rounded up.
pub open spec fn count_of(len: nat, ceiling: nat) -> nat
    recommends
        ceiling > 0,
{
    ((len + ceiling - 1) / (ceiling as int)) as nat
}

/// The offset at which the part with index `index` begins. Past the last
/// part it is the file's length.
pub open spec fn start_of(len: nat, ceiling: nat, index: nat) -> nat {
    if index * ceiling < len {
        index * ceiling
    } else {
        len
    }
}

/// The offset at which the part with index `index` ends.
pub open spec fn end_of(len: nat, ceiling: nat, index: nat) -> nat {
    start_of(len, ceiling, index + 1)
}

/// The bytes of the part with index `index`. Past the last part it is empty.
pub open spec fn part_of(file: Seq<u8>, ceiling: nat, index: nat) -> Seq<u8> {
    file.subrange(
        start_of(file.len(), ceiling, index) as int,
        end_of(file.len(), ceiling, index) as int,
    )
}

/// All parts of a file, in order.
pub open spec fn parts_of(file: Seq<u8>, ceiling: nat) -> Seq<Seq<u8>> {
    Seq::new(count_of(file.len(), ceiling), |i: int| part_of(file, ceiling, i as nat))
}

/// The parts laid end to end, in the order in which they are listed.
pub open spec fn joined(parts: Seq<Seq<u8>>) -> Seq<u8>
    decreases parts.len(),
{
    if parts.len() == 0 {
        Seq::empty()
    } else {
        joined(parts.drop_last()) + parts.last()
    }
}

/// The byte sequences that a list of buffers holds.
pub open spec fn contents(buffers: Seq<Vec<u8>>) -> Seq<Seq<u8>> {
    buffers.map_values(|b: Vec<u8>| b@)
}

/// The part count is the least number of parts that covers the file.
pub proof fn lemma_count_is_least_cover(len: nat, ceiling: nat)
    requires
        ceiling > 0,
    ensures
        count_of(len, ceiling) * ceiling >= len,
        count_of(len, ceiling) > 0 ==> (count_of(len, ceiling) - 1) * ceiling < len,
        count_of(len, ceiling) == 0 <==> len == 0,
{
    let x = len + ceiling - 1;
    let c = ceiling as int;
    lemma_fundamental_div_mod(x, c);
    let q = x / c;
    let r = x % c;
    assert(0 <= r < c);
    assert(x == c * q + r);
    assert(q >= 0) by (nonlinear_arith)
        requires
            x == c * q + r,
            x >= 0,
            0 <= r < c,
    ;
    assert(q == count_of(len, ceiling));
    assert(q * c == c * q) by (nonlinear_arith);
    assert(q == 0 ==> c * q == 0) by (nonlinear_arith);
    assert(len == 0 ==> q == 0) by (nonlinear_arith)
        requires
            len + c - 1 == c * q + r,
            0 <= r < c,
            q >= 0,
            len >= 0,
    ;
    assert((q - 1) * c == c * q - c) by (nonlinear_arith);
}

/// An index names a part exactly when its offset lies inside the file.
pub proof fn lemma_index_names_part(len: nat, ceiling: nat, index: nat)
    requires
        ceiling > 0,
    ensures
        index < count_of(len, ceiling) <==> index * ceiling < len,
{
    lemma_count_is_least_cover(len, ceiling);
    let n = count_of(len, ceiling);
    if index < n {
        assert(index * ceiling <= (n - 1) * ceiling) by (nonlinear_arith)
            requires
                index <= n - 1,
                ceiling > 0,
        ;
    } else {
        assert(index * ceiling >= n * ceiling) by (nonlinear_arith)
            requires
                index >= n,
                ceiling > 0,
        ;
    }
}

/// Every part but the last is exactly `ceiling` bytes long, and the last
/// holds what is left: `len % ceiling` bytes, or `ceiling` where that is zero.
pub proof fn lemma_part_lengths(file: Seq<u8>, ceiling: nat, index: nat)
    requires
        ceiling > 0,
        index < count_of(file.len(), ceiling),
    ensures
        index + 1 < count_of(file.len(), ceiling) ==> part_of(file, ceiling, index).len()
            == ceiling,
        index + 1 == count_of(file.len(), ceiling) ==> part_of(file, ceiling, index).len() == (
        if file.len() % ceiling != 0 {
            file.len() % ceiling
        } else {
            ceiling
        }),
        0 < part_of(file, ceiling, index).len() <= ceiling,
{
    let len = file.len();
    let n = count_of(len, ceiling);
    let c = ceiling as int;
    lemma_index_names_part(len, ceiling, index);
    lemma_index_names_part(len, ceiling, index + 1);
    lemma_count_is_least_cover(len, ceiling);
    assert((index + 1) * ceiling == index * ceiling + ceiling) by (nonlinear_arith);
    if index + 1 == n {
        let r = len - index * c;
        assert(0 < r <= c);
        if r == c {
            assert(len == (index + 1) * c + 0);
            vstd::arithmetic::div_mod::lemma_fundamental_div_mod_converse_mod(
                len as int,
                c,
                index as int + 1,
                0,
            );
        } else {
            assert(len == index * c + r);
            vstd::arithmetic::div_mod::lemma_fundamental_div_mod_converse_mod(
                len as int,
                c,
                index as int,
                r,
            );
        }
    }
}

/// The first `k` parts, joined, are the file up to where part `k` begins.
proof fn lemma_join_prefix(file: Seq<u8>, ceiling: nat, k: nat)
    requires
        ceiling > 0,
        k <= count_of(file.len(), ceiling),
    ensures
        joined(parts_of(file, ceiling).take(k as int)) == file.take(
            start_of(file.len(), ceiling, k) as int,
        ),
    decreases k,
{
    let parts = parts_of(file, ceiling);
    if k == 0 {
        assert(0 * ceiling == 0) by (nonlinear_arith);
        assert(joined(parts.take(0)) =~= file.take(0));
    } else {
        let j = (k - 1) as nat;
        lemma_join_prefix(file, ceiling, j);
        assert(parts.take(k as int).drop_last() =~= parts.take(j as int));
        assert(parts.take(k as int).last() == part_of(file, ceiling, j));
        lemma_index_names_part(file.len(), ceiling, j);
        assert((j + 1) * ceiling == j * ceiling + ceiling) by (nonlinear_arith);
        assert(joined(parts.take(k as int)) =~= file.take(
            start_of(file.len(), ceiling, k) as int,
        ));
    }
}

/// Cutting a file into parts and joining them in order gives the file back.
pub proof fn lemma_join_of_parts(file: Seq<u8>, ceiling: nat)
    requires
        ceiling > 0,
    ensures
        joined(parts_of(file, ceiling)) == file,
{
    let n = count_of(file.len(), ceiling);
    lemma_join_prefix(file, ceiling, n);
    lemma_count_is_least_cover(file.len(), ceiling);
    assert(parts_of(file, ceiling).take(n as int) =~= parts_of(file, ceiling));
    assert(file.take(file.len() as int) =~= file);
}

/// The number of parts that a file of `len` bytes is cut into.
pub fn part_count(len: u64, ceiling: u64) -> (r: u64)
    requires
        ceiling > 0,
    ensures
        r == count_of(len as nat, ceiling as nat),
{
    let q: u64 = len / ceiling;
    let rest: u64 = len % ceiling;
    proof {
        lemma_fundamental_div_mod(len as int, ceiling as int);
        assert(q * ceiling == ceiling * q) by (nonlinear_arith);
        if rest == 0 {
            lemma_fundamental_div_mod_converse_div(
                len + ceiling - 1,
                ceiling as int,
                q as int,
                ceiling - 1,
            );
        } else {
            assert((q + 1) * ceiling == q * ceiling + ceiling) by (nonlinear_arith);
            lemma_fundamental_div_mod_converse_div(
                len + ceiling - 1,
                ceiling as int,
                q + 1,
                rest - 1,
            );
            assert(q < u64::MAX) by (nonlinear_arith)
                requires
                    q * ceiling + rest == len,
                    len <= u64::MAX,
                    ceiling > rest,
                    rest > 0,
                    q >= 0,
            ;
        }
    }
    if rest == 0 {
        q
    } else {
        q + 1
    }
}

/// Where the part with index `index` begins and ends in a file of `len`
/// bytes.
pub fn part_bounds(len: u64, ceiling: u64, index: u64) -> (r: (u64, u64))
    ensures
        r.0 == start_of(len as nat, ceiling as nat, index as nat),
        r.1 == end_of(len as nat, ceiling as nat, index as nat),
        r.0 <= r.1 <= len,
{
    let wide_ceiling: u128 = ceiling as u128;
    assert(index * ceiling <= 0xffff_ffff_ffff_ffff * 0xffff_ffff_ffff_ffff) by (nonlinear_arith)
        requires
            0 <= index <= 0xffff_ffff_ffff_ffff,
            0 <= ceiling <= 0xffff_ffff_ffff_ffff,
    ;
    let reach: u128 = index as u128 * wide_ceiling;
    assert((index + 1) * ceiling == index * ceiling + ceiling) by (nonlinear_arith);
    let start: u64 = if reach < len as u128 {
        reach as u64
    } else {
        len
    };
    let end: u64 = if reach + wide_ceiling < len as u128 {
        (reach + wide_ceiling) as u64
    } else {
        len
    };
    (start, end)
}

/// A copy of the part with index `index`.
pub fn part(file: &[u8], ceiling: u64, index: u64) -> (r: Vec<u8>)
    ensures
        r@ == part_of(file@, ceiling as nat, index as nat),
{
    let (start, end) = part_bounds(file.len() as u64, ceiling, index);
    slice_to_vec(slice_subrange(file, start as usize, end as usize))
}

/// All parts of a file, in order.
pub fn split(file: &[u8], ceiling: u64) -> (r: Vec<Vec<u8>>)
    requires
        ceiling > 0,
    ensures
        contents(r@) == parts_of(file@, ceiling as nat),
{
    let count: u64 = part_count(file.len() as u64, ceiling);
    let mut parts: Vec<Vec<u8>> = Vec::new();
    let mut index: u64 = 0;
    while index < count
        invariant
            ceiling > 0,
            index <= count,
            count == count_of(file@.len(), ceiling as nat),
            contents(parts@) == parts_of(file@, ceiling as nat).take(index as int),
        decreases count - index,
    {
        let piece: Vec<u8> = part(file, ceiling, index);
        let ghost before = contents(parts@);
        parts.push(piece);
        assert(contents(parts@) =~= before.push(piece@));
        assert(contents(parts@) =~= parts_of(file@, ceiling as nat).take(index + 1));
        index += 1;
    }
    assert(parts_of(file@, ceiling as nat).take(count as int) =~= parts_of(
        file@,
        ceiling as nat,
    ));
    parts
}

/// The parts laid end to end, in the order in which they are listed.
pub fn join(parts: &Vec<Vec<u8>>) -> (r: Vec<u8>)
    ensures
        r@ == joined(contents(parts@)),
{
    let mut whole: Vec<u8> = Vec::new();
    let mut index: usize = 0;
    while index < parts.len()
        invariant
            index <= parts.len(),
            whole@ == joined(contents(parts@).take(index as int)),
        decreases parts.len() - index,
    {
        let ghost before = contents(parts@).take(index as int);
        let ghost after = contents(parts@).take(index + 1);
        assert(after.drop_last() =~= before);
        assert(after.last() == parts@[index as int]@);
        crate::bytes::append(&mut whole, parts[index].as_slice());
        index += 1;
    }
    assert(contents(parts@).take(parts.len() as int) =~= contents(parts@));
    whole
}

} // verus!
