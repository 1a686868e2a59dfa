//! Names under which a test function is registered: the linker section that
//! holds its descriptor, and the name reported for it.
use vstd::prelude::*;
use vstd::string::StringExecFns;

verus! {

/// The linker section of a test's descriptor: `.riscv_tests.` followed by
/// the function's name. The linker script collects these sections sorted by
/// name.
pub fn section_name(function_name: &str) -> (r: String)
    ensures
        r@ == ".riscv_tests."@ + function_name@,
{
    let mut s = String::from_str(".riscv_tests.");
    s.append(function_name);
    s
}

/// The reported name of a test: the path of its module, `::`, and the function's
/// name.
pub fn registered_name(module: &str, function_name: &str) -> (r: String)
    ensures
        r@ == module@ + "::"@ + function_name@,
{
    let mut s = String::from_str(module);
    s.append("::");
    s.append(function_name);
    s
}

/// Number of descriptors between the start and end addresses of the
/// collected section: the section holds a whole number of descriptors of
/// `descriptor_size` bytes.
pub fn descriptor_count(start: usize, end: usize, descriptor_size: usize) -> (count: usize)
    requires
        start <= end,
        descriptor_size > 0,
        (end - start) % (descriptor_size as int) == 0,
    ensures
        count * descriptor_size == end - start,
{
    let bytes = end - start;
    let count = bytes / descriptor_size;
    assert(count * descriptor_size == bytes) by (nonlinear_arith)
        requires
            count == bytes / descriptor_size,
            bytes % descriptor_size == 0,
            descriptor_size > 0,
    ;
    count
}

} // verus!
