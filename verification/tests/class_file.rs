use parser::attribute::{find_attribute, Attribute};
use parser::buffer::Buffer;
use parser::class_field::FieldConstantValue;
use parser::class_parser::{
    read_buffer, read_class_body, read_code, read_constant, read_constant_pool, read_header,
};
use parser::constant_pool::{ConstantPool, ConstantPoolEntry};
use parser::error::ClassFileParserError;
use parser::flags::{ClassAccessFlags, FieldFlags, MethodFlags};
use parser::pc::{LineNumber, ProgramCounter};
use parser::types::{BaseType, Type};
use parser::version::{ClassFileVersion, SdkVersion};

fn float_text(bits: u32) -> String {
    f32::from_bits(bits).to_string()
}

fn double_text(bits: u64) -> String {
    f64::from_bits(bits).to_string()
}

fn decode(bytes: &[u8]) -> Result<parser::class::ClassFile, ClassFileParserError> {
    read_buffer(bytes, float_text, double_text)
}

fn u16_bytes(out: &mut Vec<u8>, value: u16) {
    out.extend_from_slice(&value.to_be_bytes());
}

fn u32_bytes(out: &mut Vec<u8>, value: u32) {
    out.extend_from_slice(&value.to_be_bytes());
}

fn utf8(out: &mut Vec<u8>, text: &str) {
    out.push(1);
    u16_bytes(out, text.len() as u16);
    out.extend_from_slice(text.as_bytes());
}

fn class_ref(out: &mut Vec<u8>, index: u16) {
    out.push(7);
    u16_bytes(out, index);
}

fn attribute(out: &mut Vec<u8>, name: u16, content: &[u8]) {
    u16_bytes(out, name);
    u32_bytes(out, content.len() as u32);
    out.extend_from_slice(content);
}

fn sample_pool() -> Vec<u8> {
    let mut out = Vec::new();
    u16_bytes(&mut out, 24);
    utf8(&mut out, "Foo"); // 1
    class_ref(&mut out, 1); // 2
    utf8(&mut out, "java/lang/Object"); // 3
    class_ref(&mut out, 3); // 4
    utf8(&mut out, "x"); // 5
    utf8(&mut out, "I"); // 6
    utf8(&mut out, "ConstantValue"); // 7
    out.push(3); // 8
    out.extend_from_slice(&42i32.to_be_bytes());
    utf8(&mut out, "m"); // 9
    utf8(&mut out, "(I)V"); // 10
    utf8(&mut out, "Code"); // 11
    utf8(&mut out, "LineNumberTable"); // 12
    utf8(&mut out, "SourceFile"); // 13
    utf8(&mut out, "Foo.java"); // 14
    out.push(4); // 15
    out.extend_from_slice(&2.5f32.to_be_bytes());
    out.push(5); // 16 and 17
    out.extend_from_slice(&7i64.to_be_bytes());
    utf8(&mut out, "Exceptions"); // 18
    utf8(&mut out, "java/io/IOException"); // 19
    class_ref(&mut out, 19); // 20
    utf8(&mut out, "Deprecated"); // 21
    utf8(&mut out, "java/lang/Runnable"); // 22
    class_ref(&mut out, 22); // 23
    out
}

fn sample_code() -> Vec<u8> {
    let mut code = Vec::new();
    u16_bytes(&mut code, 1); // max_stack
    u16_bytes(&mut code, 2); // max_locals
    u32_bytes(&mut code, 1);
    code.push(0xb1);
    u16_bytes(&mut code, 1); // one handler
    u16_bytes(&mut code, 0);
    u16_bytes(&mut code, 1);
    u16_bytes(&mut code, 0);
    u16_bytes(&mut code, 20);
    u16_bytes(&mut code, 1); // one attribute
    let mut lines = Vec::new();
    u16_bytes(&mut lines, 2);
    u16_bytes(&mut lines, 5);
    u16_bytes(&mut lines, 20);
    u16_bytes(&mut lines, 0);
    u16_bytes(&mut lines, 10);
    attribute(&mut code, 12, &lines);
    code
}

fn sample_body() -> Vec<u8> {
    let mut out = Vec::new();
    u16_bytes(&mut out, 0x0021); // public, super
    u16_bytes(&mut out, 2); // this
    u16_bytes(&mut out, 4); // super
    u16_bytes(&mut out, 1); // interfaces
    u16_bytes(&mut out, 23);
    u16_bytes(&mut out, 1); // fields
    u16_bytes(&mut out, 0x0019);
    u16_bytes(&mut out, 5);
    u16_bytes(&mut out, 6);
    u16_bytes(&mut out, 2);
    attribute(&mut out, 7, &8u16.to_be_bytes());
    attribute(&mut out, 21, &[]);
    u16_bytes(&mut out, 1); // methods
    u16_bytes(&mut out, 0x0001);
    u16_bytes(&mut out, 9);
    u16_bytes(&mut out, 10);
    u16_bytes(&mut out, 2);
    attribute(&mut out, 11, &sample_code());
    let mut thrown = Vec::new();
    u16_bytes(&mut thrown, 1);
    u16_bytes(&mut thrown, 20);
    attribute(&mut out, 18, &thrown);
    u16_bytes(&mut out, 1); // class attributes
    attribute(&mut out, 13, &14u16.to_be_bytes());
    out
}

fn sample_class(major: u16) -> Vec<u8> {
    let mut out = vec![0xCA, 0xFE, 0xBA, 0xBE];
    u16_bytes(&mut out, 3); // minor
    u16_bytes(&mut out, major);
    out.extend_from_slice(&sample_pool());
    out.extend_from_slice(&sample_body());
    out
}

#[test]
fn a_whole_class_is_decoded() {
    let class = decode(&sample_class(52)).unwrap();
    assert_eq!(
        ClassFileVersion::parse_to_sdk_version(&class.version),
        Ok(SdkVersion::Jdk8)
    );
    assert_eq!(class.constants.len(), 23);
    assert_eq!(class.flags.bits(), ClassAccessFlags::PUBLIC | ClassAccessFlags::SUPER);
    assert_eq!(class.name, "Foo");
    assert_eq!(class.superclass, Some("java/lang/Object".to_string()));
    assert_eq!(class.interfaces, vec!["java/lang/Runnable".to_string()]);
    assert!(!class.deprecated);
    assert_eq!(class.source_file, Some("Foo.java".to_string()));

    assert_eq!(class.fields.len(), 1);
    let field = &class.fields[0];
    assert_eq!(
        field.flags.bits(),
        FieldFlags::PUBLIC | FieldFlags::STATIC | FieldFlags::FINAL
    );
    assert_eq!(field.name, "x");
    assert_eq!(field.type_descriptor, Type::Base(BaseType::Int));
    assert_eq!(field.constant_value, Some(FieldConstantValue::Int(42)));
    assert!(field.deprecated);

    assert_eq!(class.methods.len(), 1);
    let method = &class.methods[0];
    assert_eq!(method.flags.bits(), MethodFlags::PUBLIC);
    assert_eq!(method.name, "m");
    assert_eq!(method.type_descriptor, "(I)V");
    assert_eq!(method.parsed_type_descriptor.parameters, vec![Type::Base(BaseType::Int)]);
    assert!(method.is_void());
    assert!(!method.deprecated);
    assert_eq!(method.thrown_exceptions, vec!["java/io/IOException".to_string()]);
    assert_eq!(method.attributes.len(), 2);
    assert_eq!(method.attributes[0].name, "Code");
    assert_eq!(method.attributes[0].bytes, sample_code());
    assert_eq!(method.attributes[1].name, "Exceptions");

    let code = method.code.as_ref().unwrap();
    assert_eq!(code.max_stack, 1);
    assert_eq!(code.max_locals, 2);
    assert_eq!(code.code, vec![0xb1]);
    let handlers = code.exception_table.lookup(ProgramCounter(0));
    assert_eq!(handlers.len(), 1);
    assert_eq!(handlers[0].range, ProgramCounter(0)..ProgramCounter(1));
    assert_eq!(handlers[0].handler_pc, ProgramCounter(0));
    assert_eq!(handlers[0].catch_class, Some("java/io/IOException".to_string()));
    // the table of the file lists address 5 before address 0
    let lines = code.line_number_table.as_ref().unwrap();
    assert_eq!(lines.lookup_pc(ProgramCounter(0)), LineNumber(10));
    assert_eq!(lines.lookup_pc(ProgramCounter(4)), LineNumber(10));
    assert_eq!(lines.lookup_pc(ProgramCounter(5)), LineNumber(20));
    assert_eq!(code.attributes.len(), 1);
    assert_eq!(code.attributes[0].name, "LineNumberTable");
}

#[test]
fn floating_point_constants_get_their_text_from_the_renderers() {
    let class = decode(&sample_class(52)).unwrap();
    assert_eq!(
        class.constants.get_entry(15),
        Ok(&ConstantPoolEntry::Float(2.5f32.to_bits(), "2.5".to_string()))
    );
    assert_eq!(class.constants.text_of(15), Ok("2.5".to_string()));
    assert_eq!(class.constants.get_entry(16), Ok(&ConstantPoolEntry::Long(7)));
    assert_eq!(
        class.constants.get_entry(17),
        Err(ClassFileParserError::ConstantPoolIndexToPhantomEntryError(17))
    );
    let marked = read_buffer(&sample_class(52), |_| "f".to_string(), |_| "d".to_string()).unwrap();
    assert_eq!(marked.constants.text_of(15), Ok("f".to_string()));

    let mut bytes = vec![6];
    bytes.extend_from_slice(&(-0.125f64).to_be_bytes());
    let mut buffer = Buffer::new(&bytes);
    assert_eq!(
        read_constant(&mut buffer, &float_text, &double_text),
        Ok(ConstantPoolEntry::Double((-0.125f64).to_bits(), "-0.125".to_string()))
    );
    assert!(!buffer.has_more_data());
}

#[test]
fn header_is_checked() {
    let mut bad_magic = sample_class(52);
    bad_magic[3] = 0xBF;
    assert_eq!(
        decode(&bad_magic).err(),
        Some(ClassFileParserError::InvalidClassData {
            name: "invalid magic number".to_string(),
            is_invalidate_constant_pool_idx: false,
        })
    );
    assert_eq!(
        decode(&sample_class(67)).err(),
        Some(ClassFileParserError::ClassFileVersionError(67, 3))
    );
    assert_eq!(
        decode(&sample_class(44)).err(),
        Some(ClassFileParserError::ClassFileVersionError(44, 3))
    );
    for major in 45..=66 {
        assert!(decode(&sample_class(major)).is_ok());
    }
    assert_eq!(decode(&[]).err(), Some(ClassFileParserError::UnexpectedEndOfData));
    assert_eq!(
        decode(&[0xCA, 0xFE, 0xBA, 0xBE, 0, 0]).err(),
        Some(ClassFileParserError::UnexpectedEndOfData)
    );
    let mut buffer_bytes = vec![0xCA, 0xFE, 0xBA, 0xBE, 0, 9, 0, 61, 0xff];
    let mut buffer = Buffer::new(&buffer_bytes);
    let version = read_header(&mut buffer).unwrap();
    assert_eq!(ClassFileVersion::parse_to_sdk_version(&version), Ok(SdkVersion::Jdk17));
    assert_eq!(buffer.read_u8(), Ok(0xff));
    buffer_bytes.clear();
}

#[test]
fn every_truncation_of_a_class_is_reported() {
    let whole = sample_class(52);
    for len in 0..whole.len() {
        assert_eq!(
            decode(&whole[..len]).err(),
            Some(ClassFileParserError::UnexpectedEndOfData),
            "cut at {len}"
        );
    }
    // bytes behind the class are not looked at
    let mut longer = whole.clone();
    longer.extend_from_slice(&[1, 2, 3]);
    assert!(decode(&longer).is_ok());
}

#[test]
fn constant_pool_faults() {
    // a tag that is none
    let bytes = [0, 2, 2, 0, 0];
    assert_eq!(
        read_constant_pool(&mut Buffer::new(&bytes), &float_text, &double_text).err(),
        Some(ClassFileParserError::InvalidClassData {
            name: "invalid constant tag".to_string(),
            is_invalidate_constant_pool_idx: false,
        })
    );
    // text that is no modified UTF-8
    let bytes = [0, 2, 1, 0, 1, 0xff];
    assert_eq!(
        read_constant_pool(&mut Buffer::new(&bytes), &float_text, &double_text).err(),
        Some(ClassFileParserError::InvalidCesu8String)
    );
    // a count of zero or one announces no constant
    for count in [0u8, 1] {
        let bytes = [0, count, 9];
        let mut buffer = Buffer::new(&bytes);
        let pool = read_constant_pool(&mut buffer, &float_text, &double_text).unwrap();
        assert_eq!(pool.len(), 0);
        assert_eq!(buffer.read_u8(), Ok(9));
    }
    // an eight-byte constant in the last slot reaches one slot further
    let mut bytes = vec![0, 2, 5];
    bytes.extend_from_slice(&(-1i64).to_be_bytes());
    let pool = read_constant_pool(&mut Buffer::new(&bytes), &float_text, &double_text).unwrap();
    assert_eq!(pool.len(), 2);
    assert_eq!(pool.get_entry(1), Ok(&ConstantPoolEntry::Long(-1)));
}

#[test]
fn all_kinds_of_constants_are_read() {
    let mut bytes = vec![0, 12];
    utf8(&mut bytes, "a\u{e9}");
    bytes.push(3);
    bytes.extend_from_slice(&(-2i32).to_be_bytes());
    bytes.extend_from_slice(&[8, 0, 1]);
    bytes.extend_from_slice(&[9, 0, 1, 0, 2]);
    bytes.extend_from_slice(&[10, 0, 3, 0, 4]);
    bytes.extend_from_slice(&[11, 0, 5, 0, 6]);
    bytes.extend_from_slice(&[12, 0xff, 0xff, 0, 0]);
    bytes.push(6);
    bytes.extend_from_slice(&1e300f64.to_be_bytes());
    bytes.extend_from_slice(&[7, 0, 1]);
    bytes.extend_from_slice(&[1, 0, 2, 0xC0, 0x80]);
    let pool = read_constant_pool(&mut Buffer::new(&bytes), &float_text, &double_text).unwrap();
    assert_eq!(pool.len(), 11);
    assert_eq!(pool.get_entry(1), Ok(&ConstantPoolEntry::Utf8("a\u{e9}".to_string())));
    assert_eq!(pool.get_entry(2), Ok(&ConstantPoolEntry::Integer(-2)));
    assert_eq!(pool.get_entry(3), Ok(&ConstantPoolEntry::StringReference(1)));
    assert_eq!(pool.get_entry(4), Ok(&ConstantPoolEntry::FieldReference(1, 2)));
    assert_eq!(pool.get_entry(5), Ok(&ConstantPoolEntry::MethodReference(3, 4)));
    assert_eq!(pool.get_entry(6), Ok(&ConstantPoolEntry::InterfaceMethodReference(5, 6)));
    assert_eq!(pool.get_entry(7), Ok(&ConstantPoolEntry::NameAndTypeDescriptor(0xffff, 0)));
    assert_eq!(
        pool.get_entry(8),
        Ok(&ConstantPoolEntry::Double(1e300f64.to_bits(), 1e300f64.to_string()))
    );
    assert_eq!(pool.get_entry(10), Ok(&ConstantPoolEntry::ClassReference(1)));
    assert_eq!(pool.get_entry(11), Ok(&ConstantPoolEntry::Utf8("\0".to_string())));
}

fn pool_of(entries: Vec<ConstantPoolEntry>) -> ConstantPool {
    let mut pool = ConstantPool::default();
    for entry in entries {
        pool.add_entry(entry);
    }
    pool
}

fn empty_body(this: u16, superclass: u16) -> Vec<u8> {
    let mut out = Vec::new();
    u16_bytes(&mut out, 0);
    u16_bytes(&mut out, this);
    u16_bytes(&mut out, superclass);
    u16_bytes(&mut out, 0);
    u16_bytes(&mut out, 0);
    u16_bytes(&mut out, 0);
    u16_bytes(&mut out, 0);
    out
}

#[test]
fn names_are_looked_up_in_the_pool() {
    let version = ClassFileVersion::new(52, 0).unwrap();
    let pool = || {
        pool_of(vec![
            ConstantPoolEntry::Utf8("A".to_string()),
            ConstantPoolEntry::ClassReference(1),
            ConstantPoolEntry::ClassReference(3),
            ConstantPoolEntry::Long(1),
        ])
    };
    let class = read_class_body(&mut Buffer::new(&empty_body(2, 0)), version, pool()).unwrap();
    assert_eq!(class.name, "A");
    assert_eq!(class.superclass, None);
    assert!(class.interfaces.is_empty() && class.fields.is_empty() && class.methods.is_empty());
    assert_eq!(class.source_file, None);
    // a reference that runs in a circle
    assert_eq!(
        read_class_body(&mut Buffer::new(&empty_body(3, 0)), version, pool()).err(),
        Some(ClassFileParserError::InvalidClassData {
            name: "constant pool refers to itself".to_string(),
            is_invalidate_constant_pool_idx: true,
        })
    );
    assert_eq!(
        read_class_body(&mut Buffer::new(&empty_body(0, 0)), version, pool()).err(),
        Some(ClassFileParserError::WrongConstantPoolIndexError(0))
    );
    assert_eq!(
        read_class_body(&mut Buffer::new(&empty_body(2, 5)), version, pool()).err(),
        Some(ClassFileParserError::ConstantPoolIndexToPhantomEntryError(5))
    );
    assert_eq!(
        read_class_body(&mut Buffer::new(&empty_body(2, 9)), version, pool()).err(),
        Some(ClassFileParserError::WrongConstantPoolIndexError(9))
    );
}

#[test]
fn descriptors_of_members_are_parsed() {
    let mut class = sample_class(52);
    // the descriptor of the field becomes "(I)V"
    let at = class.len() - sample_body().len() + 16;
    assert_eq!(&class[at..at + 2], &[0, 6]);
    class[at + 1] = 10;
    assert_eq!(
        decode(&class).err(),
        Some(ClassFileParserError::InvalidFiledTypeDescriptor("(I)V".to_string()))
    );
    // the descriptor of the method becomes "I"
    let mut class = sample_class(52);
    let body = sample_body();
    let field_end = 12 + 6 + 2 + (6 + 2) + 6;
    let at = class.len() - body.len() + field_end + 2 + 2 + 2;
    assert_eq!(&class[at..at + 2], &[0, 10]);
    class[at + 1] = 6;
    assert_eq!(
        decode(&class).err(),
        Some(ClassFileParserError::InvalidMethodTypeDescriptor("I".to_string()))
    );
}

#[test]
fn constant_value_must_be_a_number_or_a_string() {
    let mut class = sample_class(52);
    let at = class.len() - sample_body().len() + 12 + 6 + 2 + 6;
    assert_eq!(&class[at..at + 2], &[0, 8]);
    // a long
    class[at + 1] = 16;
    assert_eq!(
        decode(&class).unwrap().fields[0].constant_value,
        Some(FieldConstantValue::Long(7))
    );
    // a float
    class[at + 1] = 15;
    assert_eq!(
        decode(&class).unwrap().fields[0].constant_value,
        Some(FieldConstantValue::Float(2.5f32.to_bits()))
    );
    // text is none of them
    class[at + 1] = 14;
    assert_eq!(
        decode(&class).err(),
        Some(ClassFileParserError::InvalidClassData {
            name: "invalid constant value".to_string(),
            is_invalidate_constant_pool_idx: true,
        })
    );
    class[at + 1] = 17;
    assert_eq!(
        decode(&class).err(),
        Some(ClassFileParserError::ConstantPoolIndexToPhantomEntryError(17))
    );
}

#[test]
fn code_is_decoded_on_its_own() {
    let pool = read_constant_pool(&mut Buffer::new(&sample_pool()), &float_text, &double_text)
        .unwrap();
    let code = read_code(&sample_code(), &pool).unwrap();
    assert_eq!(code.code, vec![0xb1]);
    assert!(code.line_number_table.is_some());
    // without attributes there is no line-number table
    let mut bare = Vec::new();
    u16_bytes(&mut bare, 0);
    u16_bytes(&mut bare, 0);
    u32_bytes(&mut bare, 0);
    u16_bytes(&mut bare, 0);
    u16_bytes(&mut bare, 0);
    let code = read_code(&bare, &pool).unwrap();
    assert!(code.code.is_empty());
    assert_eq!(code.line_number_table, None);
    assert!(code.exception_table.lookup(ProgramCounter(0)).is_empty());
    // a handler that catches everything
    let mut any = Vec::new();
    u16_bytes(&mut any, 0);
    u16_bytes(&mut any, 0);
    u32_bytes(&mut any, 0);
    u16_bytes(&mut any, 1);
    u16_bytes(&mut any, 2);
    u16_bytes(&mut any, 9);
    u16_bytes(&mut any, 7);
    u16_bytes(&mut any, 0);
    u16_bytes(&mut any, 0);
    let code = read_code(&any, &pool).unwrap();
    let found = code.exception_table.lookup(ProgramCounter(2));
    assert_eq!(found.len(), 1);
    assert_eq!(found[0].catch_class, None);
    assert_eq!(found[0].handler_pc, ProgramCounter(7));
    // more bytes announced than there are
    let mut short = Vec::new();
    u16_bytes(&mut short, 0);
    u16_bytes(&mut short, 0);
    u32_bytes(&mut short, 5);
    short.extend_from_slice(&[0, 0]);
    assert_eq!(read_code(&short, &pool).err(), Some(ClassFileParserError::UnexpectedEndOfData));
}

#[test]
fn the_first_attribute_of_a_name_is_found() {
    let attributes = vec![
        Attribute { name: "A".to_string(), bytes: vec![1] },
        Attribute { name: "B".to_string(), bytes: vec![2] },
        Attribute { name: "A".to_string(), bytes: vec![3] },
    ];
    assert_eq!(find_attribute(&attributes, "A"), Some(&attributes[0]));
    assert_eq!(find_attribute(&attributes, "B"), Some(&attributes[1]));
    assert_eq!(find_attribute(&attributes, "C"), None);
    assert_eq!(find_attribute(&Vec::new(), "A"), None);
}

#[test]
fn only_final_fields_have_a_constant_value() {
    let mut class = sample_class(52);
    let at = class.len() - sample_body().len() + 12;
    assert_eq!(&class[at..at + 2], &[0x00, 0x19]);
    // public static, not final
    class[at + 1] = 0x09;
    let decoded = decode(&class).unwrap();
    assert_eq!(decoded.fields[0].flags.bits(), FieldFlags::PUBLIC | FieldFlags::STATIC);
    assert_eq!(decoded.fields[0].constant_value, None);
    assert!(decoded.fields[0].deprecated);
}

#[test]
fn test_read_file() {
    // a class named Constants with one constant of each kind that has a text
    let mut bytes = vec![0xCA, 0xFE, 0xBA, 0xBE, 0, 0, 0, 52];
    u16_bytes(&mut bytes, 11);
    utf8(&mut bytes, "Constants"); // 1
    class_ref(&mut bytes, 1); // 2
    bytes.push(3); // 3
    bytes.extend_from_slice(&123i32.to_be_bytes());
    bytes.push(4); // 4
    bytes.extend_from_slice(&2.1f32.to_be_bytes());
    bytes.push(5); // 5 and 6
    bytes.extend_from_slice(&123i64.to_be_bytes());
    bytes.push(6); // 7 and 8
    bytes.extend_from_slice(&3.56f64.to_be_bytes());
    bytes.extend_from_slice(&[8, 0, 1]); // 9
    bytes.extend_from_slice(&[12, 0, 1, 0, 1]); // 10
    bytes.extend_from_slice(&empty_body(2, 0));
    let class_file = parser::read_buffer(&bytes, float_text, double_text).unwrap();

    println!("The readed class file is: \n {}", class_file.constants.dump());
    assert_eq!(class_file.name, "Constants");
    assert_eq!(
        class_file.constants.dump(),
        "Constant pool: (size: 10)\n\
         \x20   1, String: \"Constants\"\n\
         \x20   2, ClassReference: 1 => (String: \"Constants\")\n\
         \x20   3, Integer: 123\n\
         \x20   4, Float: 2.1\n\
         \x20   5, Long: 123\n\
         \x20   6, ------ PhantomEntry ------\n\
         \x20   7, Double: 3.56\n\
         \x20   8, ------ PhantomEntry ------\n\
         \x20   9, StringReference: 1 => (String: \"Constants\")\n\
         \x20   10, NameAndTypeDescriptor: 1, 1 => (String: \"Constants\"), (String: \"Constants\")\n"
    );
}

#[test]
fn bits_that_are_no_flags_are_rejected() {
    let invalid = |what: &str| {
        Some(ClassFileParserError::InvalidClassData {
            name: what.to_string(),
            is_invalidate_constant_pool_idx: false,
        })
    };
    let body = class_len_before_body();
    // the class
    let mut class = sample_class(52);
    class[body + 1] = 0x23;
    assert_eq!(decode(&class).err(), invalid("invalid class flags"));
    // the field
    let mut class = sample_class(52);
    class[body + 12] = 0x80;
    assert_eq!(decode(&class).err(), invalid("invalid field flags"));
    // the method
    let mut class = sample_class(52);
    let field_end = 12 + 6 + 2 + (6 + 2) + 6;
    class[body + field_end + 2] = 0x02;
    assert_eq!(decode(&class).err(), invalid("invalid method flags"));

    assert_eq!(ClassAccessFlags::from_bits(0x0021).map(|f| f.bits()), Some(0x0021));
    assert_eq!(ClassAccessFlags::from_bits(0x0002), None);
    assert_eq!(FieldFlags::from_bits(0x50df).map(|f| f.bits()), Some(0x50df));
    assert_eq!(FieldFlags::from_bits(0x0020), None);
    assert_eq!(MethodFlags::from_bits(0).map(|f| f.bits()), Some(0));
    assert_eq!(MethodFlags::from_bits(0x0200), None);
}

fn class_len_before_body() -> usize {
    sample_class(52).len() - sample_body().len()
}
