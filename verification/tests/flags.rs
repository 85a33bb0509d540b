use parser::flags::{ClassAccessFlags, FieldFlags, MethodFlags};

#[test]
fn test_flags() {
    let class_flag =
        ClassAccessFlags::from_bits_truncate(ClassAccessFlags::PUBLIC | ClassAccessFlags::INTERFACE);
    assert_eq!(class_flag.bits(), 0x0201);
    assert_eq!(class_flag.names(), "PUBLIC | INTERFACE");

    let filed_flag = FieldFlags::from_bits_truncate(FieldFlags::PUBLIC | FieldFlags::FINAL);
    println!("{}", filed_flag.names());
}

#[test]
fn flags_default_to_empty() {
    assert_eq!(ClassAccessFlags::default(), ClassAccessFlags::empty());
    assert_eq!(FieldFlags::default().bits(), 0);
    assert_eq!(MethodFlags::default().bits(), 0);
    assert_eq!(MethodFlags::default().names(), "");
}

#[test]
fn unknown_bits_are_dropped() {
    assert_eq!(ClassAccessFlags::from_bits_truncate(0xffff).bits(), 0x7631);
    assert_eq!(FieldFlags::from_bits_truncate(0xffff).bits(), 0x50df);
    assert_eq!(MethodFlags::from_bits_truncate(0xffff).bits(), 0x1dff);
    assert_eq!(ClassAccessFlags::from_bits_truncate(0x0002).bits(), 0);
}

#[test]
fn contains_asks_for_every_bit() {
    let flags = MethodFlags::from_bits_truncate(MethodFlags::STATIC | MethodFlags::FINAL);
    assert!(flags.contains(MethodFlags::STATIC));
    assert!(flags.contains(MethodFlags::STATIC | MethodFlags::FINAL));
    assert!(!flags.contains(MethodFlags::STATIC | MethodFlags::NATIVE));
    assert!(flags.contains(0));
    assert_eq!(flags.names(), "STATIC | FINAL");
    let field = FieldFlags::from_bits_truncate(0x50df);
    assert_eq!(
        field.names(),
        "PUBLIC | PRIVATE | PROTECTED | STATIC | FINAL | VOLATILE | TRANSIENT | SYNTHETIC | ENUM"
    );
    assert!(field.contains(FieldFlags::ENUM));
    let class = ClassAccessFlags::from_bits_truncate(ClassAccessFlags::ENUM);
    assert!(class.contains(ClassAccessFlags::ENUM));
    assert!(!class.contains(ClassAccessFlags::PUBLIC));
    assert_eq!(class.names(), "ENUM");
}
