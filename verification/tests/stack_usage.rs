use stackgraph::location::{Location, LocationError};
use stackgraph::stack_usage::{Function, FunctionError, Qualifier, StackUsage, StackUsageError};

#[test]
fn reads_a_record() {
    let record = StackUsage::parse("main.c:10:5:main\t32\tstatic").unwrap();
    assert_eq!(record.function.location, Location::new("main.c".to_string(), 10, 5));
    assert_eq!(record.function.name, "main");
    assert_eq!(record.stack_usage, 32);
    assert_eq!(record.qualifiers, vec![Qualifier::Static]);
}

#[test]
fn reads_several_qualifiers_in_order() {
    let record = StackUsage::parse("a.c:1:2:f\t4096\tdynamic,bounded").unwrap();
    assert_eq!(record.stack_usage, 4096);
    assert_eq!(record.qualifiers, vec![Qualifier::Dynamic, Qualifier::Bounded]);
    let record = StackUsage::parse("a.c:1:2:f\t0\tbounded,static,dynamic,static").unwrap();
    assert_eq!(
        record.qualifiers,
        vec![Qualifier::Bounded, Qualifier::Static, Qualifier::Dynamic, Qualifier::Static]
    );
}

#[test]
fn function_name_may_hold_colons() {
    let function = Function::parse("a.cpp:3:7:ns::Type::method(int)").unwrap();
    assert_eq!(function.location, Location::new("a.cpp".to_string(), 3, 7));
    assert_eq!(function.name, "ns::Type::method(int)");
}

#[test]
fn function_without_a_name_has_an_empty_one() {
    let function = Function::parse("a.c:3:7").unwrap();
    assert_eq!(function.name, "");
}

#[test]
fn function_needs_a_location() {
    assert_eq!(Function::parse("main"), Err(FunctionError::NoLocation));
    assert_eq!(Function::parse(""), Err(FunctionError::NoLocation));
}

#[test]
fn function_with_a_bad_location_is_an_error() {
    assert_eq!(Function::parse("a.c:x:1:f"), Err(FunctionError::Location(LocationError::InvalidLine)));
    assert_eq!(Function::parse("a.c:1:y:f"), Err(FunctionError::Location(LocationError::InvalidColumn)));
}

#[test]
fn record_needs_exactly_three_fields() {
    assert_eq!(StackUsage::parse(""), Err(StackUsageError::FieldCount));
    assert_eq!(StackUsage::parse("a.c:1:2:f"), Err(StackUsageError::FieldCount));
    assert_eq!(StackUsage::parse("a.c:1:2:f\t32"), Err(StackUsageError::FieldCount));
    assert_eq!(StackUsage::parse("a.c:1:2:f\t32\tstatic\t"), Err(StackUsageError::FieldCount));
    assert_eq!(StackUsage::parse("a.c:1:2:f\t32\tstatic\textra"), Err(StackUsageError::FieldCount));
}

#[test]
fn record_with_a_bad_function_is_an_error() {
    assert_eq!(
        StackUsage::parse("main\t32\tstatic"),
        Err(StackUsageError::Function(FunctionError::NoLocation))
    );
    assert_eq!(
        StackUsage::parse("a.c:x:2:f\t32\tstatic"),
        Err(StackUsageError::Function(FunctionError::Location(LocationError::InvalidLine)))
    );
}

#[test]
fn usage_must_be_a_number() {
    assert_eq!(StackUsage::parse("a.c:1:2:f\t\tstatic"), Err(StackUsageError::InvalidUsage));
    assert_eq!(StackUsage::parse("a.c:1:2:f\t3x\tstatic"), Err(StackUsageError::InvalidUsage));
    assert_eq!(StackUsage::parse("a.c:1:2:f\t-3\tstatic"), Err(StackUsageError::InvalidUsage));
    assert_eq!(StackUsage::parse("a.c:1:2:f\t 3\tstatic"), Err(StackUsageError::InvalidUsage));
}

#[test]
fn qualifier_must_be_known() {
    assert_eq!(StackUsage::parse("a.c:1:2:f\t3\t"), Err(StackUsageError::UnknownQualifier));
    assert_eq!(StackUsage::parse("a.c:1:2:f\t3\tstatic,"), Err(StackUsageError::UnknownQualifier));
    assert_eq!(StackUsage::parse("a.c:1:2:f\t3\t,static"), Err(StackUsageError::UnknownQualifier));
    assert_eq!(StackUsage::parse("a.c:1:2:f\t3\tStatic"), Err(StackUsageError::UnknownQualifier));
    assert_eq!(StackUsage::parse("a.c:1:2:f\t3\tstatic, bounded"), Err(StackUsageError::UnknownQualifier));
}

#[test]
fn first_fault_of_a_record_is_reported() {
    assert_eq!(
        StackUsage::parse("main\tx\tnone"),
        Err(StackUsageError::Function(FunctionError::NoLocation))
    );
    assert_eq!(StackUsage::parse("a.c:1:2:f\tx\tnone"), Err(StackUsageError::InvalidUsage));
}

#[test]
fn records_compare_by_their_fields() {
    let a = StackUsage::parse("a.c:1:2:f\t3\tstatic").unwrap();
    let b = StackUsage::parse("a.c:1:2:f\t3\tstatic").unwrap();
    let c = StackUsage::parse("a.c:1:2:f\t4\tstatic").unwrap();
    assert_eq!(a, b);
    assert_ne!(a, c);
    assert!(a < c);
    assert!(Qualifier::Static < Qualifier::Dynamic && Qualifier::Dynamic < Qualifier::Bounded);
}
