use radix_engine::schema::{
    ChildNames, LengthValidation, LocalTypeIndex, NovelTypeMetadata, NumericValidation, Schema,
    SchemaValidationError, TypeKind, TypeMetadata, TypeValidation,
};

fn meta(child_names: Option<ChildNames>) -> NovelTypeMetadata {
    NovelTypeMetadata { type_hash: [0; 20], type_metadata: TypeMetadata { name: None, child_names } }
}

#[test]
fn test_valid_schema() {
    let schema = Schema {
        type_kinds: vec![
            TypeKind::Tuple { field_types: vec![LocalTypeIndex::SchemaLocalIndex(1), LocalTypeIndex::WellKnown(7)] },
            TypeKind::U8,
        ],
        type_metadata: vec![meta(Some(ChildNames::FieldNames(vec![b"a".to_vec(), b"b".to_vec()]))), meta(None)],
        type_validations: vec![
            TypeValidation::Unconstrained,
            TypeValidation::Numeric(NumericValidation { min: Some(0), max: Some(10) }),
        ],
    };
    assert_eq!(schema.validate(), Ok(()));
}

#[test]
fn test_schema_errors() {
    let bad_len = Schema { type_kinds: vec![TypeKind::Bool], type_metadata: vec![], type_validations: vec![] };
    assert_eq!(bad_len.validate(), Err(SchemaValidationError::MetadataLengthMismatch));
    let bad_validations = Schema {
        type_kinds: vec![TypeKind::Bool],
        type_metadata: vec![meta(None)],
        type_validations: vec![],
    };
    assert_eq!(bad_validations.validate(), Err(SchemaValidationError::ValidationsLengthMismatch));
    let bad_index = Schema {
        type_kinds: vec![TypeKind::Array { element_type: LocalTypeIndex::SchemaLocalIndex(1) }],
        type_metadata: vec![meta(None)],
        type_validations: vec![TypeValidation::Unconstrained],
    };
    assert_eq!(bad_index.validate(), Err(SchemaValidationError::TypeKindInvalidSchemaLocalIndex));
    let bad_enum = Schema {
        type_kinds: vec![TypeKind::Enum { variants: vec![(0, vec![LocalTypeIndex::SchemaLocalIndex(3)])] }],
        type_metadata: vec![meta(None)],
        type_validations: vec![TypeValidation::Unconstrained],
    };
    assert_eq!(bad_enum.validate(), Err(SchemaValidationError::TypeKindInvalidSchemaLocalIndex));
    let bad_names = Schema {
        type_kinds: vec![TypeKind::Tuple { field_types: vec![] }],
        type_metadata: vec![meta(Some(ChildNames::FieldNames(vec![b"x".to_vec()])))],
        type_validations: vec![TypeValidation::Unconstrained],
    };
    assert_eq!(bad_names.validate(), Err(SchemaValidationError::TypeMetadataChildNamesCountMismatch));
    let wrong_names = Schema {
        type_kinds: vec![TypeKind::Bool],
        type_metadata: vec![meta(Some(ChildNames::EnumVariants(vec![])))],
        type_validations: vec![TypeValidation::Unconstrained],
    };
    assert_eq!(wrong_names.validate(), Err(SchemaValidationError::TypeMetadataChildNamesForWrongTypeKind));
    let bad_validation = Schema {
        type_kinds: vec![TypeKind::Bool, TypeKind::String],
        type_metadata: vec![meta(None), meta(None)],
        type_validations: vec![
            TypeValidation::Unconstrained,
            TypeValidation::Numeric(NumericValidation { min: None, max: None }),
        ],
    };
    assert_eq!(bad_validation.validate(), Err(SchemaValidationError::TypeValidationMismatch));
    let fine_length = Schema {
        type_kinds: vec![TypeKind::String],
        type_metadata: vec![meta(None)],
        type_validations: vec![TypeValidation::Length(LengthValidation { min: 0, max: 3 })],
    };
    assert_eq!(fine_length.validate(), Ok(()));
}

#[test]
fn test_resolve_local() {
    let schema = Schema {
        type_kinds: vec![TypeKind::Bool, TypeKind::String],
        type_metadata: vec![
            NovelTypeMetadata {
                type_hash: [1; 20],
                type_metadata: TypeMetadata { name: Some(b"Flag".to_vec()), child_names: None },
            },
            meta(None),
        ],
        type_validations: vec![TypeValidation::Unconstrained, TypeValidation::Unconstrained],
    };
    let first = schema.resolve_local(0).unwrap();
    assert_eq!(first.kind, &TypeKind::Bool);
    assert_eq!(first.metadata.name, Some(b"Flag".to_vec()));
    let second = schema.resolve_local(1).unwrap();
    assert_eq!(second.kind, &TypeKind::String);
    assert!(schema.resolve_local(2).is_none());
}
