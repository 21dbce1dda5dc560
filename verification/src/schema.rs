use vstd::prelude::*;

verus! {

/// Refers to a type: one of the well-known types, or a type of the schema
/// by its index.
#[derive(Clone, Copy, Debug, PartialEq, Eq, Structural)]
pub enum LocalTypeIndex {
    WellKnown(u8),
    SchemaLocalIndex(usize),
}

/// The kind of a type, referring to the types it is made of.
#[derive(Debug, PartialEq, Eq)]
pub enum TypeKind {
    Any,
    Bool,
    I8,
    I16,
    I32,
    I64,
    I128,
    U8,
    U16,
    U32,
    U64,
    U128,
    String,
    Array { element_type: LocalTypeIndex },
    Tuple { field_types: Vec<LocalTypeIndex> },
    Enum { variants: Vec<(u8, Vec<LocalTypeIndex>)> },
    KeyValueMap { key_type: LocalTypeIndex, value_type: LocalTypeIndex },
    Custom(u8),
}

/// The names of the parts of a type.
#[derive(Debug, PartialEq, Eq)]
pub enum ChildNames {
    FieldNames(Vec<Vec<u8>>),
    EnumVariants(Vec<(u8, Vec<u8>)>),
}

/// The name of a type and of its parts.
#[derive(Debug, PartialEq, Eq)]
pub struct TypeMetadata {
    pub name: Option<Vec<u8>>,
    pub child_names: Option<ChildNames>,
}

/// The metadata of a type of the schema, with the hash that identifies it.
#[derive(Debug, PartialEq, Eq)]
pub struct NovelTypeMetadata {
    pub type_hash: [u8; 20],
    pub type_metadata: TypeMetadata,
}

/// A bound on the length of a string, array or map.
#[derive(Clone, Copy, Debug, PartialEq, Eq, Structural)]
pub struct LengthValidation {
    pub min: u32,
    pub max: u32,
}

/// Bounds on the values of an integer type.
#[derive(Clone, Copy, Debug, PartialEq, Eq, Structural)]
pub struct NumericValidation {
    pub min: Option<i128>,
    pub max: Option<i128>,
}

/// Further constraints on the values of a type.
#[derive(Clone, Copy, Debug, PartialEq, Eq, Structural)]
pub enum TypeValidation {
    Unconstrained,
    Numeric(NumericValidation),
    Length(LengthValidation),
}

/// Why a schema is not valid.
#[derive(Debug, PartialEq, Eq, Structural)]
pub enum SchemaValidationError {
    MetadataLengthMismatch,
    ValidationsLengthMismatch,
    TypeKindInvalidSchemaLocalIndex,
    TypeMetadataChildNamesCountMismatch,
    TypeMetadataChildNamesForWrongTypeKind,
    TypeValidationMismatch,
}

/// An array of custom type kinds, and associated extra information which
/// can attach to the type kinds.
#[derive(Debug, PartialEq, Eq)]
pub struct Schema {
    pub type_kinds: Vec<TypeKind>,
    pub type_metadata: Vec<NovelTypeMetadata>,
    pub type_validations: Vec<TypeValidation>,
}

/// `t` refers to a type that exists in a schema of `n` types.
pub open spec fn index_valid(t: LocalTypeIndex, n: nat) -> bool {
    match t {
        LocalTypeIndex::WellKnown(_) => true,
        LocalTypeIndex::SchemaLocalIndex(i) => i < n,
    }
}

/// Every type that `k` refers to exists in a schema of `n` types.
pub open spec fn kind_refs_valid(k: TypeKind, n: nat) -> bool {
    match k {
        TypeKind::Array { element_type } => index_valid(element_type, n),
        TypeKind::Tuple { field_types } => forall|j: int|
            0 <= j < field_types@.len() ==> index_valid(#[trigger] field_types@[j], n),
        TypeKind::Enum { variants } => forall|v: int, j: int|
            0 <= v < variants@.len() && 0 <= j < variants@[v].1@.len() ==> index_valid(
                #[trigger] variants@[v].1@[j],
                n,
            ),
        TypeKind::KeyValueMap { key_type, value_type } => index_valid(key_type, n) && index_valid(
            value_type,
            n,
        ),
        _ => true,
    }
}

/// The names in `m` fit the kind `k`: field names for the fields of a
/// tuple, variant names for the variants of an enum.
pub open spec fn metadata_fits(k: TypeKind, m: TypeMetadata) -> Result<(), SchemaValidationError> {
    match m.child_names {
        None => Ok(()),
        Some(ChildNames::FieldNames(names)) => match k {
            TypeKind::Tuple { field_types } => if names@.len() == field_types@.len() {
                Ok(())
            } else {
                Err(SchemaValidationError::TypeMetadataChildNamesCountMismatch)
            },
            _ => Err(SchemaValidationError::TypeMetadataChildNamesForWrongTypeKind),
        },
        Some(ChildNames::EnumVariants(names)) => match k {
            TypeKind::Enum { variants } => if names@.len() == variants@.len() {
                Ok(())
            } else {
                Err(SchemaValidationError::TypeMetadataChildNamesCountMismatch)
            },
            _ => Err(SchemaValidationError::TypeMetadataChildNamesForWrongTypeKind),
        },
    }
}

/// The validation `v` applies to the kind `k`: numeric bounds to integer
/// kinds, length bounds to strings, arrays and maps.
pub open spec fn validation_fits(k: TypeKind, v: TypeValidation) -> bool {
    match v {
        TypeValidation::Unconstrained => true,
        TypeValidation::Numeric(_) => k is I8 || k is I16 || k is I32 || k is I64 || k is I128
            || k is U8 || k is U16 || k is U32 || k is U64 || k is U128,
        TypeValidation::Length(_) => k is String || k is Array || k is KeyValueMap,
    }
}

/// The first problem with type `i` of the schema, if any.
pub open spec fn type_error(s: Schema, i: int) -> Option<SchemaValidationError> {
    let n = s.type_kinds@.len();
    if !kind_refs_valid(s.type_kinds@[i], n) {
        Some(SchemaValidationError::TypeKindInvalidSchemaLocalIndex)
    } else if metadata_fits(s.type_kinds@[i], s.type_metadata@[i].type_metadata) is Err {
        Some(metadata_fits(s.type_kinds@[i], s.type_metadata@[i].type_metadata)->Err_0)
    } else if !validation_fits(s.type_kinds@[i], s.type_validations@[i]) {
        Some(SchemaValidationError::TypeValidationMismatch)
    } else {
        None
    }
}

/// The outcome of validating the schema: the lists must have one entry per
/// type, and then the first type with a problem decides.
pub open spec fn schema_validation(s: Schema) -> Result<(), SchemaValidationError> {
    let n = s.type_kinds@.len();
    if s.type_metadata@.len() != n {
        Err(SchemaValidationError::MetadataLengthMismatch)
    } else if s.type_validations@.len() != n {
        Err(SchemaValidationError::ValidationsLengthMismatch)
    } else if exists|i: int| 0 <= i < n && #[trigger] type_error(s, i) is Some {
        let i = choose|i: int|
            0 <= i < n && #[trigger] type_error(s, i) is Some && forall|j: int|
                0 <= j < i ==> type_error(s, j) is None;
        Err(type_error(s, i)->Some_0)
    } else {
        Ok(())
    }
}

fn index_ok(t: LocalTypeIndex, n: usize) -> (r: bool)
    ensures
        r == index_valid(t, n as nat),
{
    match t {
        LocalTypeIndex::WellKnown(_) => true,
        LocalTypeIndex::SchemaLocalIndex(i) => i < n,
    }
}

fn indices_ok(ts: &Vec<LocalTypeIndex>, n: usize) -> (r: bool)
    ensures
        r == forall|j: int| 0 <= j < ts@.len() ==> index_valid(#[trigger] ts@[j], n as nat),
{
    let mut j: usize = 0;
    while j < ts.len()
        invariant
            j <= ts@.len(),
            forall|a: int| 0 <= a < j ==> index_valid(#[trigger] ts@[a], n as nat),
        decreases ts@.len() - j,
    {
        if !index_ok(ts[j], n) {
            return false;
        }
        j = j + 1;
    }
    true
}

fn variants_ok(variants: &Vec<(u8, Vec<LocalTypeIndex>)>, n: usize) -> (r: bool)
    ensures
        r == forall|a: int, b: int|
            0 <= a < variants@.len() && 0 <= b < variants@[a].1@.len() ==> index_valid(
                #[trigger] variants@[a].1@[b],
                n as nat,
            ),
{
    let mut v: usize = 0;
    while v < variants.len()
        invariant
            v <= variants@.len(),
            forall|a: int, j: int|
                0 <= a < v && 0 <= j < variants@[a].1@.len() ==> index_valid(
                    #[trigger] variants@[a].1@[j],
                    n as nat,
                ),
        decreases variants@.len() - v,
    {
        if !indices_ok(&variants[v].1, n) {
            proof {
                let ts = variants@[v as int].1@;
                let j = choose|j: int| 0 <= j < ts.len() && !index_valid(ts[j], n as nat);
                assert(!index_valid(variants@[v as int].1@[j], n as nat));
            }
            return false;
        }
        v = v + 1;
    }
    true
}

fn kind_ok(k: &TypeKind, n: usize) -> (r: bool)
    ensures
        r == kind_refs_valid(*k, n as nat),
{
    match k {
        TypeKind::Array { element_type } => index_ok(*element_type, n),
        TypeKind::Tuple { field_types } => indices_ok(field_types, n),
        TypeKind::Enum { variants } => variants_ok(variants, n),
        TypeKind::KeyValueMap { key_type, value_type } => index_ok(*key_type, n) && index_ok(
            *value_type,
            n,
        ),
        _ => true,
    }
}

fn metadata_ok(k: &TypeKind, m: &TypeMetadata) -> (r: Result<(), SchemaValidationError>)
    ensures
        r == metadata_fits(*k, *m),
{
    match &m.child_names {
        None => Ok(()),
        Some(ChildNames::FieldNames(names)) => match k {
            TypeKind::Tuple { field_types } => if names.len() == field_types.len() {
                Ok(())
            } else {
                Err(SchemaValidationError::TypeMetadataChildNamesCountMismatch)
            },
            _ => Err(SchemaValidationError::TypeMetadataChildNamesForWrongTypeKind),
        },
        Some(ChildNames::EnumVariants(names)) => match k {
            TypeKind::Enum { variants } => if names.len() == variants.len() {
                Ok(())
            } else {
                Err(SchemaValidationError::TypeMetadataChildNamesCountMismatch)
            },
            _ => Err(SchemaValidationError::TypeMetadataChildNamesForWrongTypeKind),
        },
    }
}

fn validation_ok(k: &TypeKind, v: &TypeValidation) -> (r: bool)
    ensures
        r == validation_fits(*k, *v),
{
    match v {
        TypeValidation::Unconstrained => true,
        TypeValidation::Numeric(_) => match k {
            TypeKind::I8 | TypeKind::I16 | TypeKind::I32 | TypeKind::I64 | TypeKind::I128
            | TypeKind::U8 | TypeKind::U16 | TypeKind::U32 | TypeKind::U64 | TypeKind::U128 => true,
            _ => false,
        },
        TypeValidation::Length(_) => match k {
            TypeKind::String | TypeKind::Array { .. } | TypeKind::KeyValueMap { .. } => true,
            _ => false,
        },
    }
}

/// The kind and metadata of a type, as found in a schema.
pub struct ResolvedTypeData<'a> {
    pub kind: &'a TypeKind,
    pub metadata: &'a TypeMetadata,
}

impl Schema {
    /// The kind and metadata of the type of the schema at `index`; none
    /// when the schema holds fewer types. The schema holds as many kinds as
    /// metadata entries there.
    pub fn resolve_local<'a>(&'a self, index: usize) -> (r: Option<ResolvedTypeData<'a>>)
        requires
            (index < self.type_kinds@.len()) == (index < self.type_metadata@.len()),
        ensures
            match r {
                Some(d) => {
                    &&& index < self.type_kinds@.len()
                    &&& *d.kind == self.type_kinds@[index as int]
                    &&& *d.metadata == self.type_metadata@[index as int].type_metadata
                },
                None => index >= self.type_kinds@.len(),
            },
    {
        if index < self.type_kinds.len() {
            Some(
                ResolvedTypeData {
                    kind: &self.type_kinds[index],
                    metadata: &self.type_metadata[index].type_metadata,
                },
            )
        } else {
            None
        }
    }

    /// Checks that the schema is well formed: one metadata and one
    /// validation per type, every referenced type exists, names fit their
    /// types, validations fit their types.
    pub fn validate(&self) -> (r: Result<(), SchemaValidationError>)
        ensures
            r == schema_validation(*self),
    {
        let n = self.type_kinds.len();
        if self.type_metadata.len() != n {
            return Err(SchemaValidationError::MetadataLengthMismatch);
        }
        if self.type_validations.len() != n {
            return Err(SchemaValidationError::ValidationsLengthMismatch);
        }
        let mut i: usize = 0;
        while i < n
            invariant
                n == self.type_kinds@.len(),
                self.type_metadata@.len() == n,
                self.type_validations@.len() == n,
                i <= n,
                forall|j: int| 0 <= j < i ==> #[trigger] type_error(*self, j) is None,
            decreases n - i,
        {
            let k = &self.type_kinds[i];
            let e = if !kind_ok(k, n) {
                Some(SchemaValidationError::TypeKindInvalidSchemaLocalIndex)
            } else {
                match metadata_ok(k, &self.type_metadata[i].type_metadata) {
                    Err(e) => Some(e),
                    Ok(()) => if !validation_ok(k, &self.type_validations[i]) {
                        Some(SchemaValidationError::TypeValidationMismatch)
                    } else {
                        None
                    },
                }
            };
            proof {
                assert(e == type_error(*self, i as int));
            }
            match e {
                Some(e) => {
                    proof {
                        assert(type_error(*self, i as int) is Some);
                        let c = choose|c: int|
                            0 <= c < n && #[trigger] type_error(*self, c) is Some && forall|j: int|
                                0 <= j < c ==> type_error(*self, j) is None;
                        if c < i {
                            assert(type_error(*self, c) is None);
                        }
                        if c > i {
                            assert(type_error(*self, i as int) is None);
                        }
                    }
                    return Err(e);
                },
                None => {},
            }
            i = i + 1;
        }
        Ok(())
    }
}

} // verus!
