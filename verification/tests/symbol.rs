use stackgraph::callgraph_info::symbol::{is_overflowing, maybe_demangle, replace_last_segment};

#[test]
fn mangled_symbol_is_demangled() {
    assert_eq!(maybe_demangle("_Z3fooi"), "foo(int)");
    assert_eq!(maybe_demangle("_ZN5space3fooEibc"), "space::foo(int, bool, char)");
}

#[test]
fn only_the_last_segment_is_demangled() {
    assert_eq!(maybe_demangle("unit.c:_Z3fooi"), "unit.c:foo(int)");
    assert_eq!(maybe_demangle("_Z3bari:unit.c:_Z3fooi"), "_Z3bari:unit.c:foo(int)");
}

#[test]
fn bare_type_codes_count_as_symbols() {
    assert_eq!(maybe_demangle("i"), "int");
    assert_eq!(maybe_demangle("unit.c:b"), "unit.c:bool");
}

#[test]
fn mangled_symbol_before_the_last_segment_stays() {
    assert_eq!(maybe_demangle("_Z3fooi:main"), "_Z3fooi:main");
}

#[test]
fn text_that_is_no_symbol_stays_as_it_is() {
    for text in ["main", "unit.c:main", "foo(int)", "", ":", "ns::name", "__indirect_call", "_Z", "größe:é", "a:b:"] {
        assert_eq!(maybe_demangle(text), text);
    }
}

#[test]
fn replacement_takes_the_place_of_the_last_segment() {
    assert_eq!(replace_last_segment("a:b:c", Some("X".to_string())), "a:b:X");
    assert_eq!(replace_last_segment("abc", Some("X".to_string())), "X");
    assert_eq!(replace_last_segment("a:", Some("X".to_string())), "a:X");
    assert_eq!(replace_last_segment("", Some("X".to_string())), "X");
    assert_eq!(replace_last_segment("é:ü", Some("".to_string())), "é:");
}

#[test]
fn without_replacement_the_text_stays() {
    assert_eq!(replace_last_segment("a:b:c", None), "a:b:c");
    assert_eq!(replace_last_segment("", None), "");
}

#[test]
fn template_index_of_the_largest_number_overflows() {
    let largest = isize::MAX;
    for text in [
        format!("T{}_", largest),
        format!("T{}", largest),
        format!("xT{}y", largest),
        format!("_Z1fIT{}_EvT_", largest),
        format!("T1_T{}_", largest),
    ] {
        assert!(is_overflowing(&text), "{:?}", text);
    }
}

#[test]
fn other_numbers_do_not_overflow() {
    let largest = isize::MAX;
    for text in [
        String::new(),
        "T".to_string(),
        "T_".to_string(),
        "_Z3fooi".to_string(),
        format!("{}", largest),
        format!("U{}_", largest),
        format!("t{}_", largest),
        format!("T{}_", largest - 1),
        format!("T{}0_", largest),
        format!("T1{}_", largest),
        format!("T0{}_", largest),
        format!("T {}_", largest),
        format!("A{}_i", largest),
        "T1234567890_".to_string(),
    ] {
        assert!(!is_overflowing(&text), "{:?}", text);
    }
}

#[test]
fn segment_that_overflows_is_not_handed_to_the_demangler() {
    for text in [
        format!("T{}_", isize::MAX),
        format!("unit.c:T{}_", isize::MAX),
        format!("_Z1fIT{}_EvT_", isize::MAX),
    ] {
        assert_eq!(maybe_demangle(&text), text);
    }
}

#[test]
fn symbol_with_a_long_number_is_demangled() {
    assert_eq!(maybe_demangle("A123456789_i"), "int [123456789]");
    assert_eq!(maybe_demangle("A1234567890_i"), "int [1234567890]");
    assert_eq!(maybe_demangle("_Z1fPA1234567890_i"), "f(int (*) [1234567890])");
    assert_eq!(maybe_demangle("unit.c:_Z1fPA1234567890_i"), "unit.c:f(int (*) [1234567890])");
}

#[test]
fn largest_number_elsewhere_than_after_a_template_mark_is_demangled() {
    let text = format!("_Z1fILl{}EEvv", isize::MAX);
    assert_eq!(maybe_demangle(&text), format!("void f<(long){}>()", isize::MAX));
}

#[test]
fn overflowing_text_before_the_last_segment_does_not_count() {
    let text = format!("T{}_:_Z3fooi", isize::MAX);
    assert_eq!(maybe_demangle(&text), format!("T{}_:foo(int)", isize::MAX));
}
