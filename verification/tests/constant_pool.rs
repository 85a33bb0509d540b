use parser::constant_pool::{ConstantPool, ConstantPoolEntry};
use parser::error::ClassFileParserError::{
    ConstantPoolIndexToPhantomEntryError, InvalidClassData, WrongConstantPoolIndexError,
};

fn float(value: f32) -> ConstantPoolEntry {
    ConstantPoolEntry::Float(value.to_bits(), value.to_string())
}

fn double(value: f64) -> ConstantPoolEntry {
    ConstantPoolEntry::Double(value.to_bits(), value.to_string())
}

fn sample() -> ConstantPool {
    let mut cp = ConstantPool::default();
    cp.add_entry(ConstantPoolEntry::Utf8("hey".to_string()));
    cp.add_entry(ConstantPoolEntry::Integer(1));
    cp.add_entry(float(2.1));
    cp.add_entry(ConstantPoolEntry::Long(123));
    cp.add_entry(double(3.56));
    cp.add_entry(ConstantPoolEntry::ClassReference(1));
    cp.add_entry(ConstantPoolEntry::StringReference(1));
    cp.add_entry(ConstantPoolEntry::Utf8("joe".to_string()));
    cp.add_entry(ConstantPoolEntry::FieldReference(1, 10));
    cp.add_entry(ConstantPoolEntry::MethodReference(1, 10));
    cp.add_entry(ConstantPoolEntry::InterfaceMethodReference(1, 10));
    cp.add_entry(ConstantPoolEntry::NameAndTypeDescriptor(1, 10));
    cp
}

#[test]
fn test_constant_pool() {
    let cp = sample();

    println!("{}", cp.dump());
    assert_eq!(
        cp.get_entry(1),
        Ok(&ConstantPoolEntry::Utf8("hey".to_string()))
    );
    assert_eq!(
        cp.get_entry(2),
        Ok(&ConstantPoolEntry::Integer(1))
    );
    assert_eq!(
        cp.get_entry(3),
        Ok(&float(2.1))
    );
    assert_eq!(
        cp.get_entry(4),
        Ok(&ConstantPoolEntry::Long(123))
    );
    assert_eq!(
        cp.get_entry(5),
        Err(ConstantPoolIndexToPhantomEntryError(5))
    );
    assert_eq!(
        cp.get_entry(6),
        Ok(&double(3.56))
    );
    assert_eq!(
        cp.get_entry(7),
        Err(ConstantPoolIndexToPhantomEntryError(7))
    );
    assert_eq!(ConstantPoolEntry::ClassReference(1), *cp.get_entry(8).unwrap());
    assert_eq!(ConstantPoolEntry::StringReference(1), *cp.get_entry(9).unwrap());
    assert_eq!(
        ConstantPoolEntry::Utf8("joe".to_string()),
        *cp.get_entry(10).unwrap()
    );
    assert_eq!(
        ConstantPoolEntry::FieldReference(1, 10),
        *cp.get_entry(11).unwrap()
    );
    assert_eq!(
        ConstantPoolEntry::MethodReference(1, 10),
        *cp.get_entry(12).unwrap()
    );
    assert_eq!(
        ConstantPoolEntry::InterfaceMethodReference(1, 10),
        *cp.get_entry(13).unwrap()
    );
    assert_eq!(
        ConstantPoolEntry::NameAndTypeDescriptor(1, 10),
        *cp.get_entry(14).unwrap()
    );
}

#[test]
fn ends_of_the_pool_are_out_of_range() {
    let empty = ConstantPool::default();
    assert_eq!(empty.len(), 0);
    assert_eq!(empty.get_entry(0), Err(WrongConstantPoolIndexError(0)));
    assert_eq!(empty.get_entry(1), Err(WrongConstantPoolIndexError(1)));
    let cp = sample();
    assert_eq!(cp.len(), 14);
    assert_eq!(cp.get_entry(0), Err(WrongConstantPoolIndexError(0)));
    assert_eq!(cp.get_entry(15), Err(WrongConstantPoolIndexError(15)));
    assert_eq!(cp.get_entry(u16::MAX), Err(WrongConstantPoolIndexError(u16::MAX)));
}

#[test]
fn wide_constants_take_two_slots() {
    let mut cp = ConstantPool::default();
    cp.add_entry(ConstantPoolEntry::Long(-5));
    cp.add_entry(double(0.5));
    cp.add_entry(ConstantPoolEntry::Integer(9));
    assert_eq!(cp.len(), 5);
    assert_eq!(cp.get_entry(1), Ok(&ConstantPoolEntry::Long(-5)));
    assert_eq!(cp.get_entry(2), Err(ConstantPoolIndexToPhantomEntryError(2)));
    assert_eq!(cp.get_entry(3), Ok(&double(0.5)));
    assert_eq!(cp.get_entry(4), Err(ConstantPoolIndexToPhantomEntryError(4)));
    assert_eq!(cp.get_entry(5), Ok(&ConstantPoolEntry::Integer(9)));
    assert_eq!(cp.get_entry(6), Err(WrongConstantPoolIndexError(6)));
}

#[test]
fn text_of_resolves_references() {
    let cp = sample();
    assert_eq!(cp.text_of(1), Ok("hey".to_string()));
    assert_eq!(cp.text_of(2), Ok("1".to_string()));
    assert_eq!(cp.text_of(3), Ok("2.1".to_string()));
    assert_eq!(cp.text_of(4), Ok("123".to_string()));
    assert_eq!(cp.text_of(6), Ok("3.56".to_string()));
    assert_eq!(cp.text_of(8), Ok("hey".to_string()));
    assert_eq!(cp.text_of(9), Ok("hey".to_string()));
    assert_eq!(cp.text_of(11), Ok("hey.joe".to_string()));
    assert_eq!(cp.text_of(12), Ok("hey.joe".to_string()));
    assert_eq!(cp.text_of(13), Ok("hey.joe".to_string()));
    assert_eq!(cp.text_of(14), Ok("hey: joe".to_string()));
    assert_eq!(cp.text_of(0), Err(WrongConstantPoolIndexError(0)));
    assert_eq!(cp.text_of(5), Err(ConstantPoolIndexToPhantomEntryError(5)));
}

#[test]
fn text_of_reports_the_innermost_failure() {
    let mut cp = ConstantPool::default();
    cp.add_entry(ConstantPoolEntry::Long(i64::MIN)); // 1, 2
    cp.add_entry(ConstantPoolEntry::ClassReference(2)); // 3
    cp.add_entry(ConstantPoolEntry::FieldReference(3, 77)); // 4
    cp.add_entry(ConstantPoolEntry::MethodReference(1, 77)); // 5
    cp.add_entry(ConstantPoolEntry::Integer(-40)); // 6
    cp.add_entry(ConstantPoolEntry::NameAndTypeDescriptor(6, 1)); // 7
    assert_eq!(cp.text_of(1), Ok("-9223372036854775808".to_string()));
    assert_eq!(cp.text_of(3), Err(ConstantPoolIndexToPhantomEntryError(2)));
    // the first half fails first
    assert_eq!(cp.text_of(4), Err(ConstantPoolIndexToPhantomEntryError(2)));
    assert_eq!(cp.text_of(5), Err(WrongConstantPoolIndexError(77)));
    assert_eq!(cp.text_of(7), Ok("-40: -9223372036854775808".to_string()));
}

#[test]
fn resolution_stops_at_the_given_depth() {
    let mut cp = ConstantPool::default();
    cp.add_entry(ConstantPoolEntry::ClassReference(2)); // 1
    cp.add_entry(ConstantPoolEntry::StringReference(3)); // 2
    cp.add_entry(ConstantPoolEntry::Utf8("end".to_string())); // 3
    cp.add_entry(ConstantPoolEntry::ClassReference(4)); // 4: refers to itself
    assert_eq!(cp.resolve_text(3, 0), Some(Ok("end".to_string())));
    assert_eq!(cp.resolve_text(2, 0), None);
    assert_eq!(cp.resolve_text(2, 1), Some(Ok("end".to_string())));
    assert_eq!(cp.resolve_text(1, 1), None);
    assert_eq!(cp.resolve_text(1, 2), Some(Ok("end".to_string())));
    assert_eq!(cp.resolve_text(1, cp.len()), Some(Ok("end".to_string())));
    assert_eq!(cp.resolve_text(4, cp.len()), None);
    assert_eq!(cp.describe(4, cp.len()), None);
    assert_eq!(cp.resolve_text(9, 0), Some(Err(WrongConstantPoolIndexError(9))));
    assert_eq!(
        cp.describe(1, 2),
        Some(Ok("ClassReference: 2 => (StringReference: 3 => (String: \"end\"))".to_string()))
    );
}

#[test]
fn entries_are_described_for_the_dump() {
    let cp = sample();
    assert_eq!(cp.fmt_entry(1), Ok("String: \"hey\"".to_string()));
    assert_eq!(cp.fmt_entry(2), Ok("Integer: 1".to_string()));
    assert_eq!(cp.fmt_entry(3), Ok("Float: 2.1".to_string()));
    assert_eq!(cp.fmt_entry(4), Ok("Long: 123".to_string()));
    assert_eq!(cp.fmt_entry(5), Err(ConstantPoolIndexToPhantomEntryError(5)));
    assert_eq!(cp.fmt_entry(6), Ok("Double: 3.56".to_string()));
    assert_eq!(cp.fmt_entry(8), Ok("ClassReference: 1 => (String: \"hey\")".to_string()));
    assert_eq!(cp.fmt_entry(9), Ok("StringReference: 1 => (String: \"hey\")".to_string()));
    assert_eq!(
        cp.fmt_entry(11),
        Ok("FieldReference: 1, 10 => (String: \"hey\"), (String: \"joe\")".to_string())
    );
    assert_eq!(
        cp.fmt_entry(12),
        Ok("MethodReference: 1, 10 => (String: \"hey\"), (String: \"joe\")".to_string())
    );
    assert_eq!(
        cp.fmt_entry(13),
        Ok("InterfaceMethodReference: 1, 10 => (String: \"hey\"), (String: \"joe\")".to_string())
    );
    assert_eq!(
        cp.fmt_entry(14),
        Ok("NameAndTypeDescriptor: 1, 10 => (String: \"hey\"), (String: \"joe\")".to_string())
    );
    assert_eq!(cp.fmt_entry(15), Err(WrongConstantPoolIndexError(15)));
}

#[test]
fn dump_lists_every_slot_and_survives_bad_entries() {
    let mut cp = ConstantPool::default();
    assert_eq!(cp.dump(), "Constant pool: (size: 0)\n");
    cp.add_entry(ConstantPoolEntry::Long(7));
    cp.add_entry(ConstantPoolEntry::ClassReference(40));
    cp.add_entry(ConstantPoolEntry::Utf8("x".to_string()));
    assert_eq!(
        cp.dump(),
        "Constant pool: (size: 4)\n    1, Long: 7\n    2, ------ PhantomEntry ------\n    3, ------ PhantomEntry ------\n    4, String: \"x\"\n"
    );
}

#[test]
fn numbers_are_rendered_in_decimal() {
    let mut cp = ConstantPool::default();
    for n in [0, 7, 10, -1, 109, i32::MAX, i32::MIN] {
        cp.add_entry(ConstantPoolEntry::Integer(n));
    }
    for (offset, n) in [0, 7, 10, -1, 109, i32::MAX, i32::MIN].iter().enumerate() {
        assert_eq!(cp.text_of(offset as u16 + 1), Ok(n.to_string()));
    }
    let mut wide = ConstantPool::default();
    wide.add_entry(ConstantPoolEntry::Long(i64::MAX));
    wide.add_entry(ConstantPoolEntry::Long(-1000));
    wide.add_entry(ConstantPoolEntry::ClassReference(65535));
    assert_eq!(wide.text_of(1), Ok("9223372036854775807".to_string()));
    assert_eq!(wide.fmt_entry(3), Ok("Long: -1000".to_string()));
    assert_eq!(wide.describe(5, 1), Some(Err(WrongConstantPoolIndexError(65535))));
    assert!(wide.dump().starts_with("Constant pool: (size: 5)\n    1, Long: 9223372036854775807\n"));
}

fn circle() -> parser::error::ClassFileParserError {
    InvalidClassData {
        name: "constant pool refers to itself".to_string(),
        is_invalidate_constant_pool_idx: true,
    }
}

#[test]
fn references_in_a_circle_are_reported() {
    let mut cp = ConstantPool::default();
    cp.add_entry(ConstantPoolEntry::ClassReference(1)); // 1: refers to itself
    assert_eq!(cp.text_of(1), Err(circle()));
    assert_eq!(cp.fmt_entry(1), Err(circle()));
    assert_eq!(cp.dump(), "Constant pool: (size: 1)\n    1, ------ PhantomEntry ------\n");

    let mut cp = ConstantPool::default();
    cp.add_entry(ConstantPoolEntry::StringReference(2)); // 1
    cp.add_entry(ConstantPoolEntry::FieldReference(4, 3)); // 2
    cp.add_entry(ConstantPoolEntry::ClassReference(1)); // 3: back to 1
    cp.add_entry(ConstantPoolEntry::Utf8("a".to_string())); // 4
    cp.add_entry(ConstantPoolEntry::MethodReference(9, 1)); // 5: fails before the circle
    cp.add_entry(ConstantPoolEntry::NameAndTypeDescriptor(4, 4)); // 6
    for index in 1..=3 {
        assert_eq!(cp.text_of(index), Err(circle()));
        assert_eq!(cp.fmt_entry(index), Err(circle()));
    }
    assert_eq!(cp.text_of(4), Ok("a".to_string()));
    assert_eq!(cp.text_of(5), Err(WrongConstantPoolIndexError(9)));
    assert_eq!(cp.fmt_entry(5), Err(WrongConstantPoolIndexError(9)));
    assert_eq!(cp.text_of(6), Ok("a: a".to_string()));
    assert_eq!(
        cp.dump(),
        "Constant pool: (size: 6)\n\
         \x20   1, ------ PhantomEntry ------\n\
         \x20   2, ------ PhantomEntry ------\n\
         \x20   3, ------ PhantomEntry ------\n\
         \x20   4, String: \"a\"\n\
         \x20   5, ------ PhantomEntry ------\n\
         \x20   6, NameAndTypeDescriptor: 4, 4 => (String: \"a\"), (String: \"a\")\n"
    );
}

#[test]
fn a_chain_as_long_as_the_pool_still_resolves() {
    // every slot but the last refers to the next one
    let mut cp = ConstantPool::default();
    for next in 2..=40u16 {
        cp.add_entry(ConstantPoolEntry::ClassReference(next));
    }
    cp.add_entry(ConstantPoolEntry::Utf8("end".to_string()));
    assert_eq!(cp.len(), 40);
    assert_eq!(cp.text_of(1), Ok("end".to_string()));
    assert_eq!(cp.text_of(40), Ok("end".to_string()));
    let described = cp.fmt_entry(1).unwrap();
    assert!(described.starts_with("ClassReference: 2 => (ClassReference: 3 => ("));
    assert!(described.ends_with(&format!("(String: \"end\"){}", ")".repeat(38))));
}
