use parser::error::ClassFileParserError::ClassFileVersionError;
use parser::version::{ClassFileVersion, SdkVersion};

#[test]
fn test_transform() {
    let class_file_version = ClassFileVersion::new(52, 0).unwrap();
    assert_eq!(
        ClassFileVersion::parse_to_sdk_version(&class_file_version),
        Ok(SdkVersion::Jdk8)
    );

    let wrong_version = ClassFileVersion::default();
    let _ = ClassFileVersion::parse_to_sdk_version(&wrong_version).map_err(|e| {
        println!("Err: {:?}", e);
    });
    assert_eq!(
        ClassFileVersion::parse_to_sdk_version(&wrong_version),
        Err(ClassFileVersionError(0, 0))
    );
}

#[test]
fn every_known_major_version_has_its_own_release() {
    let expected = [
        SdkVersion::Jdk1_1,
        SdkVersion::Jdk1_2,
        SdkVersion::Jdk1_3,
        SdkVersion::Jdk1_4,
        SdkVersion::Jdk1_5,
        SdkVersion::Jdk6,
        SdkVersion::Jdk7,
        SdkVersion::Jdk8,
        SdkVersion::Jdk9,
        SdkVersion::Jdk10,
        SdkVersion::Jdk11,
        SdkVersion::Jdk12,
        SdkVersion::Jdk13,
        SdkVersion::Jdk14,
        SdkVersion::Jdk15,
        SdkVersion::Jdk16,
        SdkVersion::Jdk17,
        SdkVersion::Jdk18,
        SdkVersion::Jdk19,
        SdkVersion::Jdk20,
        SdkVersion::Jdk21,
        SdkVersion::Jdk22,
    ];
    for (offset, release) in expected.iter().enumerate() {
        let major = 45 + offset as u16;
        for minor in [0u16, 3, u16::MAX] {
            let version = ClassFileVersion::new(major, minor).unwrap();
            assert_eq!(ClassFileVersion::parse_to_sdk_version(&version), Ok(*release));
        }
    }
}

#[test]
fn unknown_major_versions_are_rejected_with_both_numbers() {
    for (major, minor) in [(0u16, 0u16), (44, 7), (67, 0), (u16::MAX, 65535)] {
        assert_eq!(
            ClassFileVersion::new(major, minor).err(),
            Some(ClassFileVersionError(major, minor))
        );
    }
    assert_eq!(SdkVersion::default(), SdkVersion::Jdk8);
}
