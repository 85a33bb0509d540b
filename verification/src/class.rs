use vstd::prelude::*;
use crate::class_field::ClassFileField;
use crate::class_method::ClassFileMethod;
use crate::constant_pool::ConstantPool;
use crate::flags::ClassAccessFlags;
use crate::version::ClassFileVersion;

verus! {

/// What a class file holds.
pub struct ClassFile {
    pub version: ClassFileVersion,
    pub constants: ConstantPool,
    pub flags: ClassAccessFlags,
    pub name: String,
    pub superclass: Option<String>,
    pub interfaces: Vec<String>,
    pub fields: Vec<ClassFileField>,
    pub methods: Vec<ClassFileMethod>,
    pub deprecated: bool,
    pub source_file: Option<String>,
}

impl Default for ClassFile {
    /// A class without a name, a version or members.
    fn default() -> (class: Self)
        ensures
            class.version.major() == 0,
            class.version.minor() == 0,
            class.constants.slots().len() == 0,
            class.flags@ == 0,
            class.name@.len() == 0,
            class.superclass is None,
            class.interfaces@.len() == 0,
            class.fields@.len() == 0,
            class.methods@.len() == 0,
            !class.deprecated,
            class.source_file is None,
    {
        ClassFile {
            version: ClassFileVersion::default(),
            constants: ConstantPool::default(),
            flags: ClassAccessFlags::default(),
            name: String::new(),
            superclass: None,
            interfaces: Vec::new(),
            fields: Vec::new(),
            methods: Vec::new(),
            deprecated: false,
            source_file: None,
        }
    }
}

} // verus!
