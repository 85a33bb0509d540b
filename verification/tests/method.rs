use parser::attribute::Attribute;
use parser::class_method::{ClassFileMethod, ClassFileMethodCode};
use parser::descriptor::MethodDescriptor;
use parser::error::ClassFileParserError;
use parser::exception_table::{ExceptionTable, ExceptionTableEntry};
use parser::flags::MethodFlags;
use parser::line_number_table::{LineNumberTable, LineNumberTableEntry};
use parser::pc::{LineNumber, ProgramCounter};
use parser::types::{BaseType, Type};

#[test]
fn test_cannot_parse_empty_descriptor() {
    assert_cannot_parse("")
}

#[test]
fn cannot_parse_invalid_descriptor_no_arguments() {
    assert_cannot_parse("J")
}

#[test]
fn cannot_parse_invalid_descriptor_no_return_type() {
    assert_cannot_parse("(J)")
}

#[test]
fn cannot_parse_invalid_descriptor_trash_after() {
    assert_cannot_parse("()JJ")
}

fn assert_cannot_parse(descriptor: &str) {
    assert!(matches!(
            MethodDescriptor::parse(descriptor),
            Err(ClassFileParserError::InvalidMethodTypeDescriptor(s)) if s == descriptor
        ));
}

#[test]
fn can_parse_primitives() {
    assert_eq!(
        Ok(MethodDescriptor {
            parameters: vec![
                Type::Base(BaseType::Long),
                Type::Base(BaseType::Int)
            ],
            return_type: Some(Type::Base(BaseType::Double)),
        }),
        MethodDescriptor::parse("(JI)D"),
    );
}

#[test]
fn can_parse_no_args_void_return() {
    assert_eq!(
        Ok(MethodDescriptor {
            parameters: vec![],
            return_type: None,
        }),
        MethodDescriptor::parse("()V"),
    );
}

#[test]
fn can_parse_arrays_objects() {
    assert_eq!(
        Ok(MethodDescriptor {
            parameters: vec![
                Type::Object("java/lang/String".to_string()),
                Type::Base(BaseType::Int),
            ],
            return_type: Some(Type::Array(Box::new(Type::Base(BaseType::Long)))),
        }),
        MethodDescriptor::parse("(Ljava/lang/String;I)[J"),
    );
}

#[test]
fn can_format_void_to_void() {
    assert_eq!(
        "() -> void",
        MethodDescriptor::parse("()V").unwrap().to_text()
    );
}

#[test]
fn can_format_parameters_to_return_type() {
    assert_eq!(
        "(java/lang/String, Int) -> Long[]",
        MethodDescriptor::parse("(Ljava/lang/String;I)[J").unwrap().to_text()
    );
}

#[test]
fn can_get_num_arguments() {
    assert_eq!(
        2,
        MethodDescriptor::parse("(Ljava/lang/String;I)[J")
            .unwrap()
            .num_arguments(),
    );
}

#[test]
fn can_lookup_catch_handler() {
    let entry_1 = ExceptionTableEntry {
        range: ProgramCounter(0)..ProgramCounter(4),
        handler_pc: ProgramCounter(99),
        catch_class: None,
    };
    let entry_2 = ExceptionTableEntry {
        range: ProgramCounter(8)..ProgramCounter(14),
        handler_pc: ProgramCounter(88),
        catch_class: Some("java/lang/RuntimeException".to_string()),
    };
    let entry_3 = ExceptionTableEntry {
        range: ProgramCounter(13)..ProgramCounter(14),
        handler_pc: ProgramCounter(77),
        catch_class: Some("java/lang/ClassCastException".to_string()),
    };
    let table = ExceptionTable::new(vec![entry_1.clone(), entry_2.clone(), entry_3.clone()]);

    assert_eq!(vec![&entry_1], table.lookup(ProgramCounter(0)));
    assert_eq!(vec![&entry_1], table.lookup(ProgramCounter(1)));
    assert!(table.lookup(ProgramCounter(4)).is_empty());
    assert_eq!(vec![&entry_2], table.lookup(ProgramCounter(8)));
    assert_eq!(vec![&entry_2, &entry_3], table.lookup(ProgramCounter(13)));
    assert!(table.lookup(ProgramCounter(14)).is_empty());
}

#[test]
fn can_lookup_line_number() {
    let table = LineNumberTable::new(vec![
        LineNumberTableEntry::new(ProgramCounter(0), LineNumber(4)),
        LineNumberTableEntry::new(ProgramCounter(12), LineNumber(5)),
        LineNumberTableEntry::new(ProgramCounter(20), LineNumber(6)),
    ]);

    assert_eq!(LineNumber(4), table.lookup_pc(ProgramCounter(0)));
    assert_eq!(LineNumber(4), table.lookup_pc(ProgramCounter(11)));
    assert_eq!(LineNumber(5), table.lookup_pc(ProgramCounter(12)));
    assert_eq!(LineNumber(6), table.lookup_pc(ProgramCounter(20)));
    assert_eq!(LineNumber(6), table.lookup_pc(ProgramCounter(21)));
}

#[test]
fn line_number_table_sorts_its_entries() {
    let table = LineNumberTable::new(vec![
        LineNumberTableEntry::new(ProgramCounter(20), LineNumber(6)),
        LineNumberTableEntry::new(ProgramCounter(0), LineNumber(4)),
        LineNumberTableEntry::new(ProgramCounter(12), LineNumber(5)),
    ]);
    let sorted = LineNumberTable::new(vec![
        LineNumberTableEntry::new(ProgramCounter(0), LineNumber(4)),
        LineNumberTableEntry::new(ProgramCounter(12), LineNumber(5)),
        LineNumberTableEntry::new(ProgramCounter(20), LineNumber(6)),
    ]);
    assert_eq!(table, sorted);
    assert_eq!(LineNumber(4), table.lookup_pc(ProgramCounter(3)));
    assert_eq!(LineNumber(5), table.lookup_pc(ProgramCounter(19)));
    assert_eq!(LineNumber(6), table.lookup_pc(ProgramCounter(u16::MAX)));
}

#[test]
fn line_number_table_keeps_equal_addresses_in_order() {
    let table = LineNumberTable::new(vec![
        LineNumberTableEntry::new(ProgramCounter(7), LineNumber(30)),
        LineNumberTableEntry::new(ProgramCounter(0), LineNumber(1)),
        LineNumberTableEntry::new(ProgramCounter(7), LineNumber(20)),
    ]);
    // the last entry at or before the address decides
    assert_eq!(LineNumber(20), table.lookup_pc(ProgramCounter(7)));
    assert_eq!(LineNumber(20), table.lookup_pc(ProgramCounter(8)));
    assert_eq!(LineNumber(1), table.lookup_pc(ProgramCounter(6)));
}

#[test]
fn line_number_table_tells_what_it_covers() {
    let empty = LineNumberTable::new(vec![]);
    assert!(!empty.has_line_for(ProgramCounter(0)));
    let late = LineNumberTable::new(vec![LineNumberTableEntry::new(
        ProgramCounter(5),
        LineNumber(9),
    )]);
    assert!(!late.has_line_for(ProgramCounter(4)));
    assert!(late.has_line_for(ProgramCounter(5)));
    assert_eq!(LineNumber(9), late.lookup_pc(ProgramCounter(5)));
}

#[test]
fn exception_lookup_on_empty_and_reversed_ranges() {
    assert!(ExceptionTable::default().lookup(ProgramCounter(0)).is_empty());
    let reversed = ExceptionTableEntry {
        range: ProgramCounter(9)..ProgramCounter(3),
        handler_pc: ProgramCounter(1),
        catch_class: None,
    };
    let table = ExceptionTable::new(vec![reversed]);
    assert!(table.lookup(ProgramCounter(5)).is_empty());
    assert!(table.lookup(ProgramCounter(9)).is_empty());
}

#[test]
fn broken_parameter_is_reported_as_a_type_error_with_the_whole_text() {
    assert_eq!(
        Err(ClassFileParserError::InvalidFiledTypeDescriptor("(W)V".to_string())),
        MethodDescriptor::parse("(W)V")
    );
    assert_eq!(
        Err(ClassFileParserError::InvalidFiledTypeDescriptor("(I)Lfoo".to_string())),
        MethodDescriptor::parse("(I)Lfoo")
    );
    assert_eq!(
        Err(ClassFileParserError::InvalidFiledTypeDescriptor("(Lfoo)V".to_string())),
        MethodDescriptor::parse("(Lfoo)V")
    );
}

#[test]
fn broken_frame_is_reported_as_a_method_error() {
    assert_cannot_parse("(");
    assert_cannot_parse("(I");
    assert_cannot_parse("I)V");
    assert_cannot_parse("()");
    assert_cannot_parse("()II");
    assert_cannot_parse("()[I;");
}

#[test]
fn void_return_must_end_the_descriptor() {
    assert_eq!(
        Ok(MethodDescriptor { parameters: vec![Type::Base(BaseType::Int)], return_type: None }),
        MethodDescriptor::parse("(I)V"),
    );
    assert_cannot_parse("()VV");
    assert_cannot_parse("()VJ");
    assert_cannot_parse("(I)V;");
    assert_cannot_parse("()V[I");
}

#[test]
fn descriptor_default_and_clone() {
    let empty = MethodDescriptor::default();
    assert_eq!(empty, MethodDescriptor::parse("()V").unwrap());
    let parsed = MethodDescriptor::parse("([[Lfoo/Bar;JZ)Lfoo/Baz;").unwrap();
    assert_eq!(parsed.clone(), parsed);
    assert_eq!(parsed.num_arguments(), 3);
    assert_eq!(parsed.to_text(), "(foo/Bar[][], Long, Boolean) -> foo/Baz");
    assert_eq!(MethodDescriptor::parse("(I)V").unwrap().to_text(), "(Int) -> void");
}

fn method(flags: u16, descriptor: &str) -> ClassFileMethod {
    ClassFileMethod {
        flags: MethodFlags::from_bits_truncate(flags),
        name: "m".to_string(),
        type_descriptor: descriptor.to_string(),
        parsed_type_descriptor: MethodDescriptor::parse(descriptor).unwrap(),
        attributes: vec![Attribute { name: "Signature".to_string(), bytes: vec![0, 1] }],
        code: Some(ClassFileMethodCode::default()),
        deprecated: false,
        thrown_exceptions: vec![],
    }
}

#[test]
fn method_flags_and_return_kind() {
    let m = method(MethodFlags::STATIC | MethodFlags::PUBLIC, "()V");
    assert!(m.is_static());
    assert!(!m.is_native());
    assert!(m.is_void());
    assert!(!m.returns_type(Type::Base(BaseType::Int)));

    let native = method(MethodFlags::NATIVE, "()S");
    assert!(native.is_native());
    assert!(!native.is_static());
    assert!(!native.is_void());
    // a short is computed as an int
    assert!(native.returns_type(Type::Base(BaseType::Int)));
    assert!(!native.returns_type(Type::Base(BaseType::Short)));

    for descriptor in ["()I", "()S", "()C", "()B", "()Z"] {
        assert!(method(0, descriptor).returns_type(Type::Base(BaseType::Int)));
    }
    let long = method(0, "()J");
    assert!(long.returns_type(Type::Base(BaseType::Long)));
    assert!(!long.returns_type(Type::Base(BaseType::Int)));
    let object = method(0, "()[Lfoo/Bar;");
    assert!(object.returns_type(Type::Array(Box::new(Type::Object("foo/Bar".to_string())))));
    assert!(!object.returns_type(Type::Object("foo/Bar".to_string())));
}

#[test]
fn method_code_default_is_empty() {
    let code = ClassFileMethodCode::default();
    assert_eq!(code.max_stack, 0);
    assert_eq!(code.max_locals, 0);
    assert!(code.code.is_empty());
    assert_eq!(code.exception_table, ExceptionTable::default());
    assert_eq!(code.line_number_table, None);
    assert!(code.attributes.is_empty());
}
