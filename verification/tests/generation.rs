use riscv_test_runner::stress_tests::{
    run_arithmetic_case, run_bitwise_case, run_checksum_case, run_heap_case, run_heapless_case,
    run_sorting_case,
};
use riscv_test_runner::stress_tests_generation::{
    arithmetic_case, bitwise_case, case_count, case_count_message, checksum_case, heap_case,
    heapless_case, sorting_case, stress_cases, test_name, CaseCountError, Family, StressCase,
};
use riscv_test_runner::testing::runner::{exit_status, RunTally};
use riscv_test_runner::testing::TestResult;
use riscv_test_runner::stress_tests::{allocation_error, test_intentional_failure};

#[test]
fn case_count_bounds() {
    assert_eq!(case_count(0), Err(CaseCountError::OutOfRange));
    assert_eq!(case_count(1), Ok(1));
    assert_eq!(case_count(250), Ok(250));
    assert_eq!(case_count(1000), Ok(1000));
    assert_eq!(case_count(1001), Err(CaseCountError::OutOfRange));
    assert_eq!(case_count_message(), "case count must be between 1 and 1000");
    assert!(stress_cases(0).is_err());
}

#[test]
fn first_case_parameters() {
    let a = arithmetic_case(0);
    assert_eq!((a.ordinal, a.a, a.b, a.rotation, a.mask, a.expected), (1, 0x3c88_596c, 0xa5a5_5a5e, 7, 0x9e37_79b9, 0x0104_2894));
    let b = bitwise_case(0);
    assert_eq!((b.value, b.shift, b.expected), (0xd8e8_c2ba, 11, 0x1a08_1a13));
    let c = checksum_case(0);
    assert_eq!((c.seed, c.length, c.expected), (0xc001_d00c, 256, 0xbf97_0e34_05db_1925));
    let h = heapless_case(0);
    assert_eq!((h.seed, h.length, h.expected), (0x1357_9bde, 8, 0xe995_8c7b_e79e_ed65));
    let p = heap_case(0);
    assert_eq!((p.seed, p.length, p.expected), (0x2468_ace1, 64, 0x08d9_9142_ffcc_f0a5));
    let s = sorting_case(0);
    assert_eq!((s.seed, s.length, s.expected), (0xdead_beee, 32, 0xa5fd_cbd8_c214_4251));
}

#[test]
fn later_case_parameters() {
    let b = bitwise_case(1);
    assert_eq!((b.value, b.shift, b.expected), (0x057b_3a6f, 22, 0x08a7_70a7));
    let a = arithmetic_case(249);
    assert_eq!((a.ordinal, a.expected), (250, 0xed45_8866));
    let c = checksum_case(249);
    assert_eq!((c.length, c.expected), (0x513, 0x6d21_599f_cdea_e1a8));
    let h = heapless_case(249);
    assert_eq!((h.length, h.expected), (0x17, 0x4571_60d3_074a_35c2));
    let p = heap_case(249);
    assert_eq!((p.length, p.expected), (0xdea, 0xb31c_be1c_54c7_49e6));
    let s = sorting_case(249);
    assert_eq!((s.length, s.expected), (0xf2, 0x204a_905f_fd2a_363b));
}

#[test]
fn generated_names() {
    assert_eq!(test_name(Family::Arithmetic, 1), "test_arithmetic_0001");
    assert_eq!(test_name(Family::Bitwise, 250), "test_bitwise_0250");
    assert_eq!(test_name(Family::Checksum, 1000), "test_checksum_1000");
    assert_eq!(test_name(Family::Heapless, 42), "test_heapless_0042");
    assert_eq!(test_name(Family::Heap, 7), "test_heap_0007");
    assert_eq!(test_name(Family::Sorting, 12345), "test_sorting_12345");
}

fn run(case: &StressCase) -> TestResult {
    match case {
        StressCase::Arithmetic(c) => run_arithmetic_case(c.a, c.b, c.rotation, c.mask, c.expected),
        StressCase::Bitwise(c) => run_bitwise_case(c.value, c.shift, c.expected),
        StressCase::Checksum(c) => run_checksum_case(c.seed, c.length, c.expected),
        StressCase::Heapless(c) => run_heapless_case(c.seed, c.length, c.expected),
        StressCase::Heap(c) => run_heap_case(c.seed, c.length, c.expected),
        StressCase::Sorting(c) => run_sorting_case(c.seed, c.length, c.expected),
    }
}

#[test]
fn full_suite_passes() {
    let cases = stress_cases(250).unwrap();
    assert_eq!(cases.len(), 1500);
    let mut tally = RunTally::new();
    for case in &cases {
        tally.record(&run(case));
    }
    assert_eq!((tally.passes, tally.failures, tally.errors), (1500, 0, 0));
    assert_eq!(exit_status(&tally.outcome()), 0);
}

#[test]
fn negative_suite_reports_error() {
    let cases = stress_cases(1).unwrap();
    let mut tally = RunTally::new();
    for case in &cases {
        tally.record(&run(case));
    }
    tally.record(&allocation_error());
    tally.record(&test_intentional_failure());
    assert_eq!((tally.passes, tally.failures, tally.errors), (6, 1, 1));
    assert_eq!(exit_status(&tally.outcome()), 2);
}

#[test]
fn cases_come_in_family_order() {
    let cases = stress_cases(2).unwrap();
    assert_eq!(cases.len(), 12);
    assert_eq!(cases[6], StressCase::Arithmetic(arithmetic_case(1)));
    assert_eq!(cases[11], StressCase::Sorting(sorting_case(1)));
}

#[test]
fn generated_names_are_unique() {
    let families = [Family::Arithmetic, Family::Bitwise, Family::Checksum, Family::Heapless, Family::Heap, Family::Sorting];
    let mut names = Vec::new();
    for family in families {
        for ordinal in 1..=250u32 {
            names.push(test_name(family, ordinal));
        }
    }
    let total = names.len();
    names.sort();
    names.dedup();
    assert_eq!(names.len(), total);
}
