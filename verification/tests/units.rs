// Unit checks of the semantic cube, the memory map, and the small helpers.

use dusty::dusty_context::DustyContext;
use dusty::lang::{BinOp, Kind, Type};
use dusty::quad_data::QuadData;
use dusty::semantic_cube::SemanticCube;
use dusty::virtual_machine::{bool_to_int, get_memory_size_main, get_value, Value};
use dusty::virtual_memory::{map_address, GlobalMemory, MemorySegment};

#[test]
fn cube_arithmetic_on_ints() {
    let cube = SemanticCube::new();
    assert_eq!(cube.get_result_type(Type::Int, Type::Int, BinOp::Add), Some(Type::Int));
    assert_eq!(cube.get_result_type(Type::Int, Type::Int, BinOp::Sub), Some(Type::Int));
    assert_eq!(cube.get_result_type(Type::Int, Type::Int, BinOp::Mul), Some(Type::Int));
    // division always yields float
    assert_eq!(cube.get_result_type(Type::Int, Type::Int, BinOp::Div), Some(Type::Float));
}

#[test]
fn cube_promotes_floats() {
    let cube = SemanticCube::new();
    assert_eq!(cube.get_result_type(Type::Int, Type::Float, BinOp::Add), Some(Type::Float));
    assert_eq!(cube.get_result_type(Type::Float, Type::Int, BinOp::Mul), Some(Type::Float));
    assert_eq!(cube.get_result_type(Type::Float, Type::Float, BinOp::Div), Some(Type::Float));
}

#[test]
fn cube_relationals_yield_int_on_equal_types_only() {
    let cube = SemanticCube::new();
    assert_eq!(cube.get_result_type(Type::Int, Type::Int, BinOp::Less), Some(Type::Int));
    assert_eq!(cube.get_result_type(Type::Float, Type::Float, BinOp::Greater), Some(Type::Int));
    assert_eq!(cube.get_result_type(Type::Int, Type::Float, BinOp::Less), None);
    assert_eq!(cube.get_result_type(Type::Float, Type::Int, BinOp::Equal), None);
}

#[test]
fn cube_assignment_demands_equal_types() {
    let cube = SemanticCube::new();
    assert_eq!(cube.get_result_type(Type::Int, Type::Int, BinOp::Assign), Some(Type::Int));
    assert_eq!(cube.get_result_type(Type::Float, Type::Float, BinOp::Assign), Some(Type::Float));
    assert_eq!(cube.get_result_type(Type::Int, Type::Float, BinOp::Assign), None);
    assert_eq!(cube.get_result_type(Type::Float, Type::Int, BinOp::Assign), None);
}

#[test]
fn cube_rejects_strings() {
    let cube = SemanticCube::new();
    assert_eq!(cube.get_result_type(Type::Str, Type::Int, BinOp::Add), None);
    assert_eq!(cube.get_result_type(Type::Int, Type::Str, BinOp::Equal), None);
}

#[test]
fn map_address_splits_each_segment() {
    assert_eq!(map_address(1000), Some((MemorySegment::Ints, 0)));
    assert_eq!(map_address(2999), Some((MemorySegment::Ints, 1999)));
    assert_eq!(map_address(3000), Some((MemorySegment::Floats, 0)));
    assert_eq!(map_address(5000), Some((MemorySegment::IntTemps, 0)));
    assert_eq!(map_address(7000), Some((MemorySegment::FloatTemps, 0)));
    assert_eq!(map_address(11000), Some((MemorySegment::IntLocal, 0)));
    assert_eq!(map_address(13000), Some((MemorySegment::FloatLocal, 0)));
    assert_eq!(map_address(15000), Some((MemorySegment::IntLocalTemps, 0)));
    assert_eq!(map_address(17000), Some((MemorySegment::FloatLocalTemps, 0)));
    assert_eq!(map_address(21000), Some((MemorySegment::IntConsts, 0)));
    assert_eq!(map_address(23000), Some((MemorySegment::FloatConsts, 0)));
    assert_eq!(map_address(25000), Some((MemorySegment::StringConsts, 0)));
    assert_eq!(map_address(26999), Some((MemorySegment::StringConsts, 1999)));
}

#[test]
fn map_address_rejects_the_gaps() {
    assert_eq!(map_address(0), None);
    assert_eq!(map_address(999), None);
    assert_eq!(map_address(9000), None);
    assert_eq!(map_address(10999), None);
    assert_eq!(map_address(19000), None);
    assert_eq!(map_address(20999), None);
    assert_eq!(map_address(27000), None);
}

#[test]
fn segment_bases_follow_type_scope_and_kind() {
    let qd = QuadData::new();
    assert_eq!(qd.get_memory_segment(Type::Int, "global", Kind::Regular), 1000);
    assert_eq!(qd.get_memory_segment(Type::Float, "global", Kind::Regular), 3000);
    assert_eq!(qd.get_memory_segment(Type::Int, "global", Kind::Temporal), 5000);
    assert_eq!(qd.get_memory_segment(Type::Float, "global", Kind::Temporal), 7000);
    assert_eq!(qd.get_memory_segment(Type::Int, "f", Kind::Regular), 11000);
    assert_eq!(qd.get_memory_segment(Type::Float, "f", Kind::Regular), 13000);
    assert_eq!(qd.get_memory_segment(Type::Int, "f", Kind::Temporal), 15000);
    assert_eq!(qd.get_memory_segment(Type::Float, "f", Kind::Temporal), 17000);
    assert_eq!(qd.get_memory_segment(Type::Int, "f", Kind::Constant), 21000);
    assert_eq!(qd.get_memory_segment(Type::Float, "f", Kind::Constant), 23000);
    assert_eq!(qd.get_memory_segment(Type::Str, "f", Kind::Constant), 25000);
    // string variables have no segment
    assert_eq!(qd.get_memory_segment(Type::Str, "global", Kind::Regular), 999999);
}

#[test]
fn bool_to_int_is_one_or_zero() {
    assert_eq!(bool_to_int(true), 1);
    assert_eq!(bool_to_int(false), 0);
}

#[test]
fn memory_sizes_come_from_counters_and_const_counts() {
    let mut f = dusty::function_info::FunctionInfo::new(String::from("global"), 0);
    f.add_to_counter(Type::Int, Kind::Regular);
    f.add_to_counter(Type::Int, Kind::Regular);
    f.add_to_counter(Type::Float, Kind::Regular);
    f.add_to_counter(Type::Int, Kind::Temporal);
    let sizes = get_memory_size_main(&f, [4, 5, 6]);
    assert_eq!(sizes, [2, 1, 1, 0, 4, 5, 6]);
}

#[test]
fn interning_returns_the_existing_address() {
    let mut ctx = DustyContext::new();
    let first = ctx.intern_constant("3", Type::Int).expect("interns");
    let again = ctx.intern_constant("3", Type::Int).expect("interns");
    assert_eq!(first.location, again.location);
    assert_eq!(first.location, 21000);
    assert_eq!(ctx.const_dir.len(), 1);
    // a distinct literal gets the next address
    let other = ctx.intern_constant("4", Type::Int).expect("interns");
    assert_eq!(other.location, 21001);
    // the same text at another type is a different constant
    let as_str = ctx.intern_constant("3", Type::Str).expect("interns");
    assert_eq!(as_str.location, 25000);
}

#[test]
fn reads_route_by_segment_and_reject_the_rest() {
    let mem = GlobalMemory::new(1, 1, 1, 1, 1, 1, 1);
    assert!(matches!(get_value(&mem, 1000), Ok(Value::IntVal(_))));
    assert!(matches!(get_value(&mem, 3000), Ok(Value::FloatBits(_))));
    assert!(matches!(get_value(&mem, 25000), Ok(Value::StrVal(_))));
    // out of the declared segments
    assert!(get_value(&mem, 999).is_err());
    // inside a segment but past the allocated cells
    assert!(get_value(&mem, 1001).is_err());
    // a local read with no frame on the stack
    assert!(get_value(&mem, 11000).is_err());
}
