use riscv_test_runner::registration::{descriptor_count, registered_name, section_name};

#[test]
fn section_and_registered_names() {
    assert_eq!(section_name("test_addition"), ".riscv_tests.test_addition");
    assert_eq!(registered_name("app::stress_tests", "test_heap_0001"), "app::stress_tests::test_heap_0001");
}

#[test]
fn descriptor_counts() {
    assert_eq!(descriptor_count(0x8000_0000, 0x8000_0000, 12), 0);
    assert_eq!(descriptor_count(0x8000_0000, 0x8000_0024, 12), 3);
}
