//! What the stress-suite generator computes on the host: the values of the
//! vector workloads, the accepted number of cases, the parameters and
//! expected results of each generated case, and the generated test names.
use crate::bits::{rotate_left, rotate_left_spec};
use crate::sorting::{ascending, sort_ascending};
use crate::stress_tests::{
    arithmetic_pipeline, arithmetic_pipeline_spec, bitwise_signature, bitwise_signature_spec,
    checksum_step, generated_checksum, generated_checksum_spec, hash_values, heap_step,
    heapless_next, heapless_step, indexed_hash, push_heap_values, push_xorshift_values, sorting_step,
    stream, stream_state,
};
use crate::text::{lemma_zero_padded_injective, zero_padded, zero_padded_text};
use vstd::string::StringExecFns;
use vstd::wrapping::u32_specs;
use vstd::prelude::*;

verus! {

/// The first `length` outputs of the fixed-capacity workload's generator.
pub fn heapless_values(seed: u32, length: usize) -> (values: Vec<u32>)
    ensures
        values@ == stream(heapless_step(), seed, length as nat),
{
    let mut values: Vec<u32> = Vec::new();
    let mut state = seed;
    let ghost generated = stream(heapless_step(), seed, length as nat);
    for i in 0..length
        invariant
            generated == stream(heapless_step(), seed, length as nat),
            state == stream_state(heapless_step(), seed, i as nat),
            values@ == generated.take(i as int),
    {
        state = heapless_next(state);
        values.push(state);
        assert(values@ =~= generated.take(i + 1));
    }
    assert(generated.take(length as int) =~= generated);
    values
}

/// The first `length` outputs of the heap workload's generator.
pub fn heap_values(seed: u32, length: usize) -> (values: Vec<u32>)
    ensures
        values@ == stream(heap_step(), seed, length as nat),
{
    let mut values: Vec<u32> = Vec::new();
    push_heap_values(&mut values, seed, length);
    assert(values@ =~= stream(heap_step(), seed, length as nat));
    values
}

/// The first `length` outputs of the xorshift generator, in ascending order.
pub fn sorted_values(seed: u32, length: usize) -> (values: Vec<u32>)
    ensures
        values@ == ascending(stream(sorting_step(), seed, length as nat)),
{
    let mut values: Vec<u32> = Vec::new();
    push_xorshift_values(&mut values, seed, length);
    assert(values@ =~= stream(sorting_step(), seed, length as nat));
    sort_ascending(&mut values);
    values
}

/// The largest number of cases per family that the generator accepts.
pub const MAX_CASE_COUNT: usize = 1000;

/// Number of workload families; each index yields one case of each.
pub const FAMILY_COUNT: usize = 6;

/// Why a requested number of cases was refused.
#[derive(PartialEq, Eq, Structural, Clone, Copy, Debug)]
pub enum CaseCountError {
    /// The count is not between 1 and 1000.
    OutOfRange,
}

/// The accepted number of cases per family: any count from 1 to 1000.
pub fn case_count(count: usize) -> (r: Result<usize, CaseCountError>)
    ensures
        r is Ok <==> 1 <= count <= MAX_CASE_COUNT,
        r matches Ok(c) ==> c == count,
        r matches Err(e) ==> e == CaseCountError::OutOfRange,
{
    if 1 <= count && count <= MAX_CASE_COUNT {
        Ok(count)
    } else {
        Err(CaseCountError::OutOfRange)
    }
}

/// The text reported for a refused count.
pub fn case_count_message() -> (r: &'static str)
    ensures
        r@ == "case count must be between 1 and 1000"@,
{
    "case count must be between 1 and 1000"
}

/// The workload families of the stress suite, in the order in which each
/// index yields its cases.
#[derive(PartialEq, Eq, Structural, Clone, Copy, Debug)]
pub enum Family {
    Arithmetic,
    Bitwise,
    Checksum,
    Heapless,
    Heap,
    Sorting,
}

/// Parameters and expected result of an arithmetic pipeline case.
#[derive(PartialEq, Eq, Structural, Clone, Copy, Debug)]
pub struct ArithmeticCase {
    pub ordinal: u32,
    pub a: u32,
    pub b: u32,
    pub rotation: u32,
    pub mask: u32,
    pub expected: u32,
}

/// Parameters and expected result of a bit signature case.
#[derive(PartialEq, Eq, Structural, Clone, Copy, Debug)]
pub struct BitwiseCase {
    pub ordinal: u32,
    pub value: u32,
    pub shift: u32,
    pub expected: u32,
}

/// Parameters and expected hash of a seeded case (checksum, fixed-capacity
/// vector, heap vector or sorting).
#[derive(PartialEq, Eq, Structural, Clone, Copy, Debug)]
pub struct SeededCase {
    pub ordinal: u32,
    pub seed: u32,
    pub length: usize,
    pub expected: u64,
}

/// One generated stress case.
#[derive(PartialEq, Eq, Structural, Clone, Copy, Debug)]
pub enum StressCase {
    Arithmetic(ArithmeticCase),
    Bitwise(BitwiseCase),
    Checksum(SeededCase),
    Heapless(SeededCase),
    Heap(SeededCase),
    Sorting(SeededCase),
}

/// The one-based ordinal of the case at `index`, as a 32-bit word.
pub open spec fn ordinal_of(index: nat) -> u32 {
    (index + 1) as u32
}

/// The arithmetic case at `index`.
pub open spec fn arithmetic_case_spec(index: nat) -> ArithmeticCase {
    let ordinal = ordinal_of(index);
    let a = u32_specs::wrapping_add(u32_specs::wrapping_mul(ordinal, 1_664_525), 1_013_904_223);
    let b = rotate_left_spec(ordinal, ((ordinal % 31) + 1) as u32) ^ 0xa5a5_5a5a;
    let rotation = u32_specs::wrapping_mul(ordinal, 7) % 32;
    let mask = u32_specs::wrapping_mul(0x9e37_79b9, ordinal);
    ArithmeticCase {
        ordinal,
        a,
        b,
        rotation,
        mask,
        expected: arithmetic_pipeline_spec(a, b, rotation, mask),
    }
}

/// The bit signature case at `index`.
pub open spec fn bitwise_case_spec(index: nat) -> BitwiseCase {
    let ordinal = ordinal_of(index);
    let value = u32_specs::wrapping_add(u32_specs::wrapping_mul(ordinal, 747_796_405), 2_891_336_453);
    let shift = u32_specs::wrapping_mul(ordinal, 11) % 32;
    BitwiseCase { ordinal, value, shift, expected: bitwise_signature_spec(value, shift) }
}

/// The checksum case at `index`.
pub open spec fn checksum_case_spec(index: nat) -> SeededCase {
    let ordinal = ordinal_of(index);
    let seed = ordinal ^ 0xc001_d00d;
    let length = (256 + (index * 251) % 3841) as usize;
    SeededCase { ordinal, seed, length, expected: generated_checksum_spec(seed, length as nat) }
}

/// The fixed-capacity vector case at `index`.
pub open spec fn heapless_case_spec(index: nat) -> SeededCase {
    let ordinal = ordinal_of(index);
    let seed = ordinal ^ 0x1357_9bdf;
    let length = (8 + (index * 17) % 57) as usize;
    SeededCase {
        ordinal,
        seed,
        length,
        expected: indexed_hash(stream(heapless_step(), seed, length as nat)),
    }
}

/// The heap vector case at `index`.
pub open spec fn heap_case_spec(index: nat) -> SeededCase {
    let ordinal = ordinal_of(index);
    let seed = ordinal ^ 0x2468_ace0;
    let length = (64 + (index * 257) % 4033) as usize;
    SeededCase {
        ordinal,
        seed,
        length,
        expected: indexed_hash(stream(heap_step(), seed, length as nat)),
    }
}

/// The sorting case at `index`.
pub open spec fn sorting_case_spec(index: nat) -> SeededCase {
    let ordinal = ordinal_of(index);
    let seed = ordinal ^ 0xdead_beef;
    let length = (32 + (index * 53) % 481) as usize;
    SeededCase {
        ordinal,
        seed,
        length,
        expected: indexed_hash(ascending(stream(sorting_step(), seed, length as nat))),
    }
}

/// The case of `family` at `index`.
pub open spec fn stress_case_spec(index: nat, family: Family) -> StressCase {
    match family {
        Family::Arithmetic => StressCase::Arithmetic(arithmetic_case_spec(index)),
        Family::Bitwise => StressCase::Bitwise(bitwise_case_spec(index)),
        Family::Checksum => StressCase::Checksum(checksum_case_spec(index)),
        Family::Heapless => StressCase::Heapless(heapless_case_spec(index)),
        Family::Heap => StressCase::Heap(heap_case_spec(index)),
        Family::Sorting => StressCase::Sorting(sorting_case_spec(index)),
    }
}

/// The family of the `k`-th case generated for each index.
pub open spec fn family_at(k: int) -> Family {
    if k == 0 {
        Family::Arithmetic
    } else if k == 1 {
        Family::Bitwise
    } else if k == 2 {
        Family::Checksum
    } else if k == 3 {
        Family::Heapless
    } else if k == 4 {
        Family::Heap
    } else {
        Family::Sorting
    }
}

fn ordinal(index: usize) -> (r: u32)
    requires
        index < MAX_CASE_COUNT,
    ensures
        r == ordinal_of(index as nat),
        r == index + 1,
{
    (index + 1) as u32
}

/// The arithmetic case at `index`.
pub fn arithmetic_case(index: usize) -> (c: ArithmeticCase)
    requires
        index < MAX_CASE_COUNT,
    ensures
        c == arithmetic_case_spec(index as nat),
{
    let ordinal = ordinal(index);
    let a = ordinal.wrapping_mul(1_664_525).wrapping_add(1_013_904_223);
    let b = rotate_left(ordinal, (ordinal % 31) + 1) ^ 0xa5a5_5a5a;
    let rotation = ordinal.wrapping_mul(7) % 32;
    let mask = 0x9e37_79b9u32.wrapping_mul(ordinal);
    let expected = arithmetic_pipeline(a, b, rotation, mask);
    ArithmeticCase { ordinal, a, b, rotation, mask, expected }
}

/// The bit signature case at `index`.
pub fn bitwise_case(index: usize) -> (c: BitwiseCase)
    requires
        index < MAX_CASE_COUNT,
    ensures
        c == bitwise_case_spec(index as nat),
{
    let ordinal = ordinal(index);
    let value = ordinal.wrapping_mul(747_796_405).wrapping_add(2_891_336_453);
    let shift = ordinal.wrapping_mul(11) % 32;
    let expected = bitwise_signature(value, shift);
    BitwiseCase { ordinal, value, shift, expected }
}

/// The checksum case at `index`.
pub fn checksum_case(index: usize) -> (c: SeededCase)
    requires
        index < MAX_CASE_COUNT,
    ensures
        c == checksum_case_spec(index as nat),
{
    let ordinal = ordinal(index);
    let seed = ordinal ^ 0xc001_d00d;
    let length = 256 + (index * 251 % 3841);
    let expected = generated_checksum(seed, length);
    SeededCase { ordinal, seed, length, expected }
}

/// The fixed-capacity vector case at `index`.
pub fn heapless_case(index: usize) -> (c: SeededCase)
    requires
        index < MAX_CASE_COUNT,
    ensures
        c == heapless_case_spec(index as nat),
{
    let ordinal = ordinal(index);
    let seed = ordinal ^ 0x1357_9bdf;
    let length = 8 + (index * 17 % 57);
    let values = heapless_values(seed, length);
    let expected = hash_values(values.as_slice());
    SeededCase { ordinal, seed, length, expected }
}

/// The heap vector case at `index`.
pub fn heap_case(index: usize) -> (c: SeededCase)
    requires
        index < MAX_CASE_COUNT,
    ensures
        c == heap_case_spec(index as nat),
{
    let ordinal = ordinal(index);
    let seed = ordinal ^ 0x2468_ace0;
    let length = 64 + (index * 257 % 4033);
    let values = heap_values(seed, length);
    let expected = hash_values(values.as_slice());
    SeededCase { ordinal, seed, length, expected }
}

/// The sorting case at `index`.
pub fn sorting_case(index: usize) -> (c: SeededCase)
    requires
        index < MAX_CASE_COUNT,
    ensures
        c == sorting_case_spec(index as nat),
{
    let ordinal = ordinal(index);
    let seed = ordinal ^ 0xdead_beef;
    let length = 32 + (index * 53 % 481);
    let values = sorted_values(seed, length);
    let expected = hash_values(values.as_slice());
    SeededCase { ordinal, seed, length, expected }
}

/// All cases of the suite for `count` cases per family: for each index in
/// turn, one case of each family in the order arithmetic, bitwise,
/// checksum, fixed-capacity vector, heap vector, sorting. A count outside
/// 1..=1000 is refused.
pub fn stress_cases(count: usize) -> (r: Result<Vec<StressCase>, CaseCountError>)
    ensures
        r is Ok <==> 1 <= count <= MAX_CASE_COUNT,
        r matches Err(e) ==> e == CaseCountError::OutOfRange,
        r matches Ok(cases) ==> cases@.len() == FAMILY_COUNT * count && forall|i: int, k: int|
            0 <= i < count && 0 <= k < FAMILY_COUNT ==> #[trigger] cases@[FAMILY_COUNT * i + k]
                == stress_case_spec(i as nat, family_at(k)),
{
    let count = match case_count(count) {
        Ok(c) => c,
        Err(e) => {
            return Err(e);
        },
    };
    let mut cases: Vec<StressCase> = Vec::new();
    for index in 0..count
        invariant
            1 <= count <= MAX_CASE_COUNT,
            cases@.len() == FAMILY_COUNT * index,
            forall|i: int, k: int|
                0 <= i < index && 0 <= k < FAMILY_COUNT ==> #[trigger] cases@[FAMILY_COUNT * i + k]
                    == stress_case_spec(i as nat, family_at(k)),
    {
        let ghost before = cases@;
        cases.push(StressCase::Arithmetic(arithmetic_case(index)));
        cases.push(StressCase::Bitwise(bitwise_case(index)));
        cases.push(StressCase::Checksum(checksum_case(index)));
        cases.push(StressCase::Heapless(heapless_case(index)));
        cases.push(StressCase::Heap(heap_case(index)));
        cases.push(StressCase::Sorting(sorting_case(index)));
        assert forall|i: int, k: int|
            0 <= i < index + 1 && 0 <= k < FAMILY_COUNT implies #[trigger] cases@[FAMILY_COUNT * i
            + k] == stress_case_spec(i as nat, family_at(k)) by {
            if i < index {
                assert(FAMILY_COUNT * i + k < FAMILY_COUNT * index) by (nonlinear_arith)
                    requires
                        i < index,
                        k < FAMILY_COUNT,
                        FAMILY_COUNT == 6,
                ;
                assert(cases@[FAMILY_COUNT * i + k] == before[FAMILY_COUNT * i + k]);
            } else {
                assert(i == index);
            }
        }
    }
    Ok(cases)
}

/// The prefix of the generated test names of a family.
pub open spec fn family_prefix(family: Family) -> Seq<char> {
    match family {
        Family::Arithmetic => "test_arithmetic_"@,
        Family::Bitwise => "test_bitwise_"@,
        Family::Checksum => "test_checksum_"@,
        Family::Heapless => "test_heapless_"@,
        Family::Heap => "test_heap_"@,
        Family::Sorting => "test_sorting_"@,
    }
}

/// The name of a generated test: the family's prefix and the ordinal in
/// decimal, zero-padded to four digits.
pub fn test_name(family: Family, ordinal: u32) -> (name: String)
    ensures
        name@ == family_prefix(family) + zero_padded(ordinal as nat, 4),
{
    let mut name = String::new();
    match family {
        Family::Arithmetic => name.append("test_arithmetic_"),
        Family::Bitwise => name.append("test_bitwise_"),
        Family::Checksum => name.append("test_checksum_"),
        Family::Heapless => name.append("test_heapless_"),
        Family::Heap => name.append("test_heap_"),
        Family::Sorting => name.append("test_sorting_"),
    }
    let digits = zero_padded_text(ordinal as u64, 4);
    name.append(digits.as_str());
    name
}

/// Every generated case passes when the target runs it: the expected value
/// embedded in each case is what the target's run of that case computes,
/// and no fixed-capacity case asks for more than the vector's 64 values.
/// (The heap and sorting cases can still fail to allocate.)
pub proof fn lemma_generated_cases_pass(index: nat)
    requires
        index < MAX_CASE_COUNT,
    ensures
        ({
            let c = arithmetic_case_spec(index);
            arithmetic_pipeline_spec(c.a, c.b, c.rotation, c.mask) == c.expected
        }),
        ({
            let c = bitwise_case_spec(index);
            bitwise_signature_spec(c.value, c.shift) == c.expected
        }),
        ({
            let c = checksum_case_spec(index);
            generated_checksum_spec(c.seed, c.length as nat) == c.expected
        }),
        ({
            let c = heapless_case_spec(index);
            &&& c.length <= 64
            &&& indexed_hash(stream(heapless_step(), c.seed, c.length as nat)) == c.expected
        }),
        ({
            let c = heap_case_spec(index);
            indexed_hash(stream(heap_step(), c.seed, c.length as nat)) == c.expected
        }),
        ({
            let c = sorting_case_spec(index);
            indexed_hash(ascending(stream(sorting_step(), c.seed, c.length as nat))) == c.expected
        }),
{
    assert((index * 17) % 57 < 57);
}

/// The seeded checksum hashes exactly the values that the checksum
/// generator yields, as the indexed hash of a stored sequence would.
pub proof fn lemma_checksum_hashes_stream(seed: u32, length: nat)
    ensures
        generated_checksum_spec(seed, length) == indexed_hash(stream(checksum_step(), seed, length)),
{
}

/// Every generated test has a name of its own: two names are equal only
/// for the same family and ordinal.
pub proof fn lemma_test_names_unique(f1: Family, o1: u32, f2: Family, o2: u32)
    requires
        family_prefix(f1) + zero_padded(o1 as nat, 4) == family_prefix(f2) + zero_padded(
            o2 as nat,
            4,
        ),
    ensures
        f1 == f2,
        o1 == o2,
{
    reveal_strlit("test_arithmetic_");
    reveal_strlit("test_bitwise_");
    reveal_strlit("test_checksum_");
    reveal_strlit("test_heapless_");
    reveal_strlit("test_heap_");
    reveal_strlit("test_sorting_");
    let n1 = family_prefix(f1) + zero_padded(o1 as nat, 4);
    let n2 = family_prefix(f2) + zero_padded(o2 as nat, 4);
    let p1 = family_prefix(f1);
    let p2 = family_prefix(f2);
    assert(zero_padded(o1 as nat, 4).len() >= 4);
    assert(zero_padded(o2 as nat, 4).len() >= 4);
    assert(n1[5] == p1[5]);
    assert(n2[5] == p2[5]);
    assert(n1[9] == p1[9]);
    assert(n2[9] == p2[9]);
    assert(f1 == f2);
    assert(zero_padded(o1 as nat, 4) =~= n1.subrange(p1.len() as int, n1.len() as int));
    assert(zero_padded(o2 as nat, 4) =~= n2.subrange(p2.len() as int, n2.len() as int));
    lemma_zero_padded_injective(o1 as nat, o2 as nat, 4);
}

} // verus!
