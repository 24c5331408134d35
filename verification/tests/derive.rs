use axum_openapi::derive::{
    derive_schema, Config, DataShape, DeriveInput, FieldDecl, SchemaDescription, SchemaError,
};
use axum_openapi::schema::{Primitive, Property, Schema, SchemaKind, SchemaRef, TypeShape};

fn named(name: &str, ty: TypeShape) -> FieldDecl {
    FieldDecl { name: Some(name.to_string()), ty }
}

fn error_type() -> DeriveInput {
    DeriveInput {
        ident: "Error".to_string(),
        data: DataShape::Struct(vec![
            named("code", TypeShape::Int32),
            named("message", TypeShape::Str),
        ]),
    }
}

fn error_schema() -> SchemaDescription {
    SchemaDescription {
        name: "Error".to_string(),
        schema: Schema {
            nullable: false,
            kind: SchemaKind::Object {
                properties: vec![
                    Property {
                        name: "code".to_string(),
                        schema: SchemaRef::Item(Schema {
                            nullable: false,
                            kind: SchemaKind::Primitive(Primitive::Int32),
                        }),
                    },
                    Property {
                        name: "message".to_string(),
                        schema: SchemaRef::Item(Schema {
                            nullable: false,
                            kind: SchemaKind::Primitive(Primitive::Text),
                        }),
                    },
                ],
                required: vec![],
            },
        },
    }
}

#[test]
fn a_struct_has_the_object_schema_of_its_members() {
    assert_eq!(derive_schema(&error_type()), Ok(error_schema()));
}

#[test]
fn the_struct_part_alone_gives_the_same() {
    let config = Config { ident: "Error".to_string() };
    let fields = vec![named("code", TypeShape::Int32), named("message", TypeShape::Str)];
    assert_eq!(config.derive_schema_struct(&fields), Ok(error_schema()));
}

#[test]
fn a_struct_without_members_is_an_empty_object() {
    let input = DeriveInput { ident: "Unit".to_string(), data: DataShape::Struct(vec![]) };
    assert_eq!(
        derive_schema(&input),
        Ok(SchemaDescription {
            name: "Unit".to_string(),
            schema: Schema {
                nullable: false,
                kind: SchemaKind::Object { properties: vec![], required: vec![] },
            },
        })
    );
}

#[test]
fn an_enum_has_no_schema() {
    let input = DeriveInput { ident: "Kind".to_string(), data: DataShape::Enum };
    assert_eq!(derive_schema(&input), Err(SchemaError::UnsupportedEnum));
}

#[test]
fn a_union_has_no_schema() {
    let input = DeriveInput { ident: "Bits".to_string(), data: DataShape::Union };
    assert_eq!(derive_schema(&input), Err(SchemaError::UnsupportedUnion));
}

#[test]
fn a_member_without_a_name_is_reported_with_its_position() {
    let input = DeriveInput {
        ident: "Pair".to_string(),
        data: DataShape::Struct(vec![
            named("first", TypeShape::Int32),
            FieldDecl { name: None, ty: TypeShape::Int32 },
            FieldDecl { name: None, ty: TypeShape::Int32 },
        ]),
    };
    assert_eq!(derive_schema(&input), Err(SchemaError::UnnamedField(1)));
}

#[test]
fn a_repeated_member_name_is_reported_with_its_position() {
    let input = DeriveInput {
        ident: "Twice".to_string(),
        data: DataShape::Struct(vec![
            named("a", TypeShape::Int32),
            named("b", TypeShape::Int32),
            named("a", TypeShape::Str),
        ]),
    };
    assert_eq!(derive_schema(&input), Err(SchemaError::DuplicateField(2)));
}

#[test]
fn the_first_fault_in_the_order_of_members_is_the_one_reported() {
    let input = DeriveInput {
        ident: "Both".to_string(),
        data: DataShape::Struct(vec![
            named("a", TypeShape::Int32),
            named("a", TypeShape::Int32),
            FieldDecl { name: None, ty: TypeShape::Int32 },
        ]),
    };
    assert_eq!(derive_schema(&input), Err(SchemaError::DuplicateField(1)));
}

#[test]
fn an_error_of_a_declaration_says_what_is_wrong() {
    assert_eq!(SchemaError::UnsupportedEnum.message(), "an enum has no schema");
    assert_eq!(SchemaError::UnsupportedUnion.message(), "a union has no schema");
    assert_eq!(SchemaError::UnnamedField(0).message(), "a member of the struct has no name");
    assert_eq!(
        SchemaError::DuplicateField(1).message(),
        "two members of the struct have the same name"
    );
}
