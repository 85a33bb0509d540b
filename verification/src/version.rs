use vstd::prelude::*;
use crate::error::ClassFileParserError;

verus! {

/// The Java release that a class file was compiled for.
#[derive(Debug, Clone, Copy, PartialEq, Eq, Structural)]
pub enum SdkVersion {
    Jdk1_1,
    Jdk1_2,
    Jdk1_3,
    Jdk1_4,
    Jdk1_5,
    Jdk6,
    Jdk7,
    Jdk8,
    Jdk9,
    Jdk10,
    Jdk11,
    Jdk12,
    Jdk13,
    Jdk14,
    Jdk15,
    Jdk16,
    Jdk17,
    Jdk18,
    Jdk19,
    Jdk20,
    Jdk21,
    Jdk22,
}

impl Default for SdkVersion {
    fn default() -> (version: Self)
        ensures
            version == SdkVersion::Jdk8,
    {
        SdkVersion::Jdk8
    }
}

/// The smallest major version that is known.
pub const FIRST_MAJOR_VERSION: u16 = 45;

/// The greatest major version that is known.
pub const LAST_MAJOR_VERSION: u16 = 66;

/// The release that a major version stands for; `None` for a major version
/// outside the known range.
pub open spec fn sdk_version_of(major_version: u16) -> Option<SdkVersion> {
    if major_version == 45 {
        Some(SdkVersion::Jdk1_1)
    } else if major_version == 46 {
        Some(SdkVersion::Jdk1_2)
    } else if major_version == 47 {
        Some(SdkVersion::Jdk1_3)
    } else if major_version == 48 {
        Some(SdkVersion::Jdk1_4)
    } else if major_version == 49 {
        Some(SdkVersion::Jdk1_5)
    } else if major_version == 50 {
        Some(SdkVersion::Jdk6)
    } else if major_version == 51 {
        Some(SdkVersion::Jdk7)
    } else if major_version == 52 {
        Some(SdkVersion::Jdk8)
    } else if major_version == 53 {
        Some(SdkVersion::Jdk9)
    } else if major_version == 54 {
        Some(SdkVersion::Jdk10)
    } else if major_version == 55 {
        Some(SdkVersion::Jdk11)
    } else if major_version == 56 {
        Some(SdkVersion::Jdk12)
    } else if major_version == 57 {
        Some(SdkVersion::Jdk13)
    } else if major_version == 58 {
        Some(SdkVersion::Jdk14)
    } else if major_version == 59 {
        Some(SdkVersion::Jdk15)
    } else if major_version == 60 {
        Some(SdkVersion::Jdk16)
    } else if major_version == 61 {
        Some(SdkVersion::Jdk17)
    } else if major_version == 62 {
        Some(SdkVersion::Jdk18)
    } else if major_version == 63 {
        Some(SdkVersion::Jdk19)
    } else if major_version == 64 {
        Some(SdkVersion::Jdk20)
    } else if major_version == 65 {
        Some(SdkVersion::Jdk21)
    } else if major_version == 66 {
        Some(SdkVersion::Jdk22)
    } else {
        None
    }
}

/// The version of the class file format that a file declares.
#[derive(Debug, Clone, Copy)]
pub struct ClassFileVersion {
    major_version: u16,
    minor_version: u16,
}

impl Default for ClassFileVersion {
    /// The placeholder `0.0`, which no release ever wrote.
    fn default() -> (version: Self)
        ensures
            version.major() == 0,
            version.minor() == 0,
    {
        ClassFileVersion { major_version: 0, minor_version: 0 }
    }
}

impl ClassFileVersion {
    /// The major version.
    pub closed spec fn major(&self) -> u16 {
        self.major_version
    }

    /// The minor version.
    pub closed spec fn minor(&self) -> u16 {
        self.minor_version
    }

    /// The version `major_version.minor_version`, where the major version is
    /// a known one; the minor version is taken as it comes.
    pub fn new(major_version: u16, minor_version: u16) -> (r: Result<Self, ClassFileParserError>)
        ensures
            sdk_version_of(major_version) is Some ==> r is Ok && r->Ok_0.major() == major_version
                && r->Ok_0.minor() == minor_version,
            sdk_version_of(major_version) is None ==> r == Err::<Self, _>(
                ClassFileParserError::ClassFileVersionError(major_version, minor_version),
            ),
    {
        let version = Self { major_version, minor_version };
        match ClassFileVersion::parse_to_sdk_version(&version) {
            Ok(_) => Ok(version),
            Err(_) => Err(
                ClassFileParserError::ClassFileVersionError(major_version, minor_version),
            ),
        }
    }

    /// The release that this version belongs to, or an error that carries
    /// both numbers.
    pub fn parse_to_sdk_version(value: &ClassFileVersion) -> (r: Result<
        SdkVersion,
        ClassFileParserError,
    >)
        ensures
            match sdk_version_of(value.major()) {
                Some(sdk) => r == Ok::<SdkVersion, ClassFileParserError>(sdk),
                None => r == Err::<SdkVersion, _>(
                    ClassFileParserError::ClassFileVersionError(value.major(), value.minor()),
                ),
            },
    {
        match value.major_version {
            45 => Ok(SdkVersion::Jdk1_1),
            46 => Ok(SdkVersion::Jdk1_2),
            47 => Ok(SdkVersion::Jdk1_3),
            48 => Ok(SdkVersion::Jdk1_4),
            49 => Ok(SdkVersion::Jdk1_5),
            50 => Ok(SdkVersion::Jdk6),
            51 => Ok(SdkVersion::Jdk7),
            52 => Ok(SdkVersion::Jdk8),
            53 => Ok(SdkVersion::Jdk9),
            54 => Ok(SdkVersion::Jdk10),
            55 => Ok(SdkVersion::Jdk11),
            56 => Ok(SdkVersion::Jdk12),
            57 => Ok(SdkVersion::Jdk13),
            58 => Ok(SdkVersion::Jdk14),
            59 => Ok(SdkVersion::Jdk15),
            60 => Ok(SdkVersion::Jdk16),
            61 => Ok(SdkVersion::Jdk17),
            62 => Ok(SdkVersion::Jdk18),
            63 => Ok(SdkVersion::Jdk19),
            64 => Ok(SdkVersion::Jdk20),
            65 => Ok(SdkVersion::Jdk21),
            66 => Ok(SdkVersion::Jdk22),
            _ => Err(
                ClassFileParserError::ClassFileVersionError(
                    value.major_version,
                    value.minor_version,
                ),
            ),
        }
    }
}

/// The known major versions are exactly those of one contiguous range.
pub proof fn known_versions_are_a_range(major_version: u16)
    ensures
        sdk_version_of(major_version) is Some <==> FIRST_MAJOR_VERSION <= major_version
            <= LAST_MAJOR_VERSION,
{
}

/// No two major versions stand for the same release.
pub proof fn release_determines_major_version(first: u16, second: u16)
    requires
        sdk_version_of(first) is Some,
        sdk_version_of(first) == sdk_version_of(second),
    ensures
        first == second,
{
}

} // verus!
