//! Deriving the named schema of a declared data type.

use crate::schema::{
    DescribeSchema, distinct_property_names, field_properties, FieldView, lemma_object_view,
    lemma_schema_of_record, lemma_schema_of_well_formed, object_schema, Property, property_views,
    PropertyView, RecordView, Schema, schema_of, SchemaKind, SchemaRef, SchemaRefView, SchemaView,
    TypeShape, TypeShapeView, well_formed, well_formed_ref, well_formed_shape,
};
use crate::text::texts;
use vstd::prelude::*;
use vstd::string::*;

verus! {

/// A member of a declared struct.  The members of a tuple struct have no
/// name.
#[derive(Debug, PartialEq, Eq)]
pub struct FieldDecl {
    pub name: Option<String>,
    pub ty: TypeShape,
}

/// What kind of type a declaration declares.
#[derive(Debug, PartialEq, Eq)]
pub enum DataShape {
    Struct(Vec<FieldDecl>),
    Enum,
    Union,
}

/// The declaration of a data type.
#[derive(Debug, PartialEq, Eq)]
pub struct DeriveInput {
    pub ident: String,
    pub data: DataShape,
}

/// The mathematical value of a [`FieldDecl`].
pub struct FieldDeclView {
    pub name: Option<Seq<char>>,
    pub ty: TypeShapeView,
}

/// The mathematical value of a [`DataShape`].
pub enum DataShapeView {
    Struct(Seq<FieldDeclView>),
    Enum,
    Union,
}

/// The mathematical value of a [`DeriveInput`].
pub struct DeriveInputView {
    pub ident: Seq<char>,
    pub data: DataShapeView,
}

impl View for FieldDecl {
    type V = FieldDeclView;

    open spec fn view(&self) -> FieldDeclView {
        FieldDeclView {
            name: match self.name {
                Some(name) => Some(name@),
                None => None,
            },
            ty: self.ty@,
        }
    }
}

/// The values of a list of declared members.
pub open spec fn declared_fields(v: Seq<FieldDecl>) -> Seq<FieldDeclView> {
    Seq::new(v.len(), |i: int| v[i]@)
}

impl View for DataShape {
    type V = DataShapeView;

    open spec fn view(&self) -> DataShapeView {
        match *self {
            DataShape::Struct(fields) => DataShapeView::Struct(declared_fields(fields@)),
            DataShape::Enum => DataShapeView::Enum,
            DataShape::Union => DataShapeView::Union,
        }
    }
}

impl View for DeriveInput {
    type V = DeriveInputView;

    open spec fn view(&self) -> DeriveInputView {
        DeriveInputView { ident: self.ident@, data: self.data@ }
    }
}

/// A schema together with the name under which a document lists it.
#[derive(Debug, PartialEq, Eq)]
pub struct SchemaDescription {
    pub schema: Schema,
    pub name: String,
}

/// The mathematical value of a [`SchemaDescription`].
pub struct SchemaDescriptionView {
    pub schema: SchemaView,
    pub name: Seq<char>,
}

impl View for SchemaDescription {
    type V = SchemaDescriptionView;

    open spec fn view(&self) -> SchemaDescriptionView {
        SchemaDescriptionView { schema: self.schema@, name: self.name@ }
    }
}

impl Clone for SchemaDescription {
    fn clone(&self) -> (r: SchemaDescription)
        ensures
            r@ == self@,
    {
        SchemaDescription { schema: self.schema.clone(), name: self.name.clone() }
    }
}

/// Why a declaration has no schema.
#[derive(Debug, Clone, Copy, PartialEq, Eq, Structural)]
pub enum SchemaError {
    /// The declaration is an enum.
    UnsupportedEnum,
    /// The declaration is a union.
    UnsupportedUnion,
    /// The member at this position has no name.
    UnnamedField(usize),
    /// The member at this position has the name of an earlier member.
    DuplicateField(usize),
}

/// Some property of `props` is called `name`.
pub open spec fn has_property(props: Seq<PropertyView>, name: Seq<char>) -> bool {
    exists|j: int| 0 <= j < props.len() && #[trigger] props[j].name == name
}

/// The properties that the members of a struct give, each member described
/// in place, or the first member, in the order of declaration, that has no
/// name or repeats one.
pub open spec fn struct_properties(fields: Seq<FieldDeclView>) -> Result<
    Seq<PropertyView>,
    SchemaError,
>
    decreases fields.len(),
{
    if fields.len() == 0 {
        Ok(Seq::empty())
    } else {
        match struct_properties(fields.drop_last()) {
            Err(e) => Err(e),
            Ok(props) => match fields.last().name {
                None => Err(SchemaError::UnnamedField((fields.len() - 1) as usize)),
                Some(name) => if has_property(props, name) {
                    Err(SchemaError::DuplicateField((fields.len() - 1) as usize))
                } else {
                    Ok(
                        props.push(
                            PropertyView {
                                name,
                                schema: SchemaRefView::Item(schema_of(fields.last().ty)),
                            },
                        ),
                    )
                },
            },
        }
    }
}

/// The named schema of a struct called `ident` with the given members: an
/// object with one property for each member, none of them required.
pub open spec fn derived_struct(ident: Seq<char>, fields: Seq<FieldDeclView>) -> Result<
    SchemaDescriptionView,
    SchemaError,
> {
    match struct_properties(fields) {
        Err(e) => Err(e),
        Ok(props) => Ok(SchemaDescriptionView { schema: object_schema(props), name: ident }),
    }
}

/// The named schema of a declared type.  Only structs with named members
/// have one.
pub open spec fn derived(input: DeriveInputView) -> Result<SchemaDescriptionView, SchemaError> {
    match input.data {
        DataShapeView::Struct(fields) => derived_struct(input.ident, fields),
        DataShapeView::Enum => Err(SchemaError::UnsupportedEnum),
        DataShapeView::Union => Err(SchemaError::UnsupportedUnion),
    }
}

/// The shapes of all members are well formed.
pub open spec fn well_formed_fields(fields: Seq<FieldDeclView>) -> bool {
    forall|i: int| 0 <= i < fields.len() ==> well_formed_shape((#[trigger] fields[i]).ty)
}

/// What a derivation works with: the name of the declared type.
#[derive(Debug, PartialEq, Eq)]
pub struct Config {
    pub ident: String,
}

/// Whether a property of `props` is called `name`.
pub fn contains_property(props: &Vec<Property>, name: &String) -> (r: bool)
    ensures
        r == has_property(property_views(props@), name@),
{
    let mut i: usize = 0;
    while i < props.len()
        invariant
            i <= props.len(),
            forall|j: int| 0 <= j < i ==> props[j].name@ != name@,
        decreases props.len() - i,
    {
        if props[i].name == *name {
            assert(property_views(props@)[i as int].name == name@);
            return true;
        }
        i += 1;
    }
    assert forall|j: int| 0 <= j < property_views(props@).len() implies property_views(
        props@,
    )[j].name != name@ by {
        assert(property_views(props@)[j].name == props[j].name@);
    }
    false
}

impl Config {
    /// The named schema of a struct with the given members: an object with
    /// one property for each member, in the order of declaration, none of
    /// them required.
    pub fn derive_schema_struct(&self, fields: &Vec<FieldDecl>) -> (r: Result<
        SchemaDescription,
        SchemaError,
    >)
        ensures
            match derived_struct(self.ident@, declared_fields(fields@)) {
                Ok(d) => r is Ok && r->Ok_0@ == d,
                Err(e) => r is Err && r->Err_0 == e,
            },
            well_formed_fields(declared_fields(fields@)) ==> (r matches Ok(d) ==> well_formed(
                d@.schema,
            )),
    {
        let ghost declared = declared_fields(fields@);
        let mut props: Vec<Property> = Vec::new();
        let mut i: usize = 0;
        proof {
            if well_formed_fields(declared) {
                lemma_derived_well_formed(self.ident@, declared);
            }
            assert(declared.take(0) =~= Seq::empty());
            assert(property_views(props@) =~= Seq::empty());
        }
        while i < fields.len()
            invariant
                i <= fields.len(),
                declared == declared_fields(fields@),
                struct_properties(declared.take(i as int)) == Ok::<_, SchemaError>(
                    property_views(props@),
                ),
            decreases fields.len() - i,
        {
            let ghost before = property_views(props@);
            proof {
                assert(declared.take(i + 1).drop_last() =~= declared.take(i as int));
                assert(declared.take(i + 1).last() == fields@[i as int]@);
                lemma_struct_properties_error_stays(declared, i + 1);
            }
            match &fields[i].name {
                None => {
                    return Err(SchemaError::UnnamedField(i));
                },
                Some(name) => {
                    if contains_property(&props, name) {
                        return Err(SchemaError::DuplicateField(i));
                    }
                    let p = Property {
                        name: name.clone(),
                        schema: SchemaRef::Item(fields[i].ty.describe_schema()),
                    };
                    props.push(p);
                    assert(property_views(props@) =~= before.push(p@));
                },
            }
            i += 1;
        }
        assert(declared.take(i as int) =~= declared);
        let schema = Schema {
            nullable: false,
            kind: SchemaKind::Object { properties: props, required: Vec::new() },
        };
        proof {
            lemma_object_view(schema);
            assert(texts(schema.kind->required@) =~= Seq::<Seq<char>>::empty());
        }
        Ok(SchemaDescription { schema, name: self.ident.clone() })
    }
}

/// An error among the first members of a struct is the error of the whole
/// struct.
pub proof fn lemma_struct_properties_error_stays(fields: Seq<FieldDeclView>, n: int)
    requires
        0 <= n <= fields.len(),
    ensures
        struct_properties(fields.take(n)) is Err ==> struct_properties(fields)
            == struct_properties(fields.take(n)),
    decreases fields.len() - n,
{
    if n < fields.len() {
        lemma_struct_properties_error_stays(fields, n + 1);
        assert(fields.take(n + 1).drop_last() =~= fields.take(n));
    } else {
        assert(fields.take(n) =~= fields);
    }
}

/// The named schema of a declared type.
pub fn derive_schema(input: &DeriveInput) -> (r: Result<SchemaDescription, SchemaError>)
    ensures
        match derived(input@) {
            Ok(d) => r is Ok && r->Ok_0@ == d,
            Err(e) => r is Err && r->Err_0 == e,
        },
{
    match &input.data {
        DataShape::Struct(fields) => {
            let config = Config { ident: input.ident.clone() };
            config.derive_schema_struct(fields)
        },
        DataShape::Enum => Err(SchemaError::UnsupportedEnum),
        DataShape::Union => Err(SchemaError::UnsupportedUnion),
    }
}

/// The properties of a struct are as many as its members, each with the
/// name and the schema of its member, and no two have the same name.
pub proof fn lemma_struct_properties_distinct(fields: Seq<FieldDeclView>)
    ensures
        struct_properties(fields) matches Ok(props) ==> {
            &&& props.len() == fields.len()
            &&& distinct_property_names(props)
            &&& forall|i: int|
                0 <= i < props.len() ==> (#[trigger] props[i]).schema == SchemaRefView::Item(
                    schema_of(fields[i].ty),
                ) && fields[i].name == Some(props[i].name)
        },
    decreases fields.len(),
{
    if fields.len() > 0 {
        lemma_struct_properties_distinct(fields.drop_last());
        match struct_properties(fields.drop_last()) {
            Err(e) => {},
            Ok(before) => match struct_properties(fields) {
                Err(e) => {},
                Ok(props) => {
                    assert forall|i: int, j: int| 0 <= i < j < props.len() implies (
                    #[trigger] props[i]).name != (#[trigger] props[j]).name by {
                        if j < before.len() {
                            assert(props[i] == before[i] && props[j] == before[j]);
                        } else {
                            assert(props[i] == before[i]);
                        }
                    }
                    assert forall|i: int| 0 <= i < props.len() implies (#[trigger] props[i]).schema
                        == SchemaRefView::Item(schema_of(fields[i].ty)) && fields[i].name == Some(
                        props[i].name,
                    ) by {
                        if i < before.len() {
                            assert(props[i] == before[i]);
                            assert(fields[i] == fields.drop_last()[i]);
                        }
                    }
                },
            },
        }
    }
}

/// The schema that is derived for a struct is well formed if the shapes of
/// its members are.
pub proof fn lemma_derived_well_formed(ident: Seq<char>, fields: Seq<FieldDeclView>)
    requires
        well_formed_fields(fields),
    ensures
        derived_struct(ident, fields) matches Ok(d) ==> well_formed(d.schema) && d.name == ident,
{
    lemma_struct_properties_distinct(fields);
    match struct_properties(fields) {
        Err(e) => {},
        Ok(props) => {
            assert forall|i: int| 0 <= i < props.len() implies well_formed_ref(
                (#[trigger] props[i]).schema,
            ) by {
                lemma_schema_of_well_formed(fields[i].ty);
            }
        },
    }
}

/// The members of a declared struct are the members of the record: each
/// has the name and the shape of the member of the record at its place.
pub open spec fn declares(fields: Seq<FieldDeclView>, record: Seq<FieldView>) -> bool {
    &&& fields.len() == record.len()
    &&& forall|i: int|
        0 <= i < fields.len() ==> (#[trigger] fields[i]).name == Some(record[i].name)
            && fields[i].ty == record[i].ty
}

/// The properties that are derived for a struct are those of the record
/// that it declares, as long as no two members have the same name.
pub proof fn lemma_struct_properties_of_record(fields: Seq<FieldDeclView>, record: Seq<FieldView>)
    requires
        declares(fields, record),
        forall|i: int, j: int|
            0 <= i < j < record.len() ==> (#[trigger] record[i]).name != (#[trigger] record[j]).name,
    ensures
        struct_properties(fields) == Ok::<_, SchemaError>(field_properties(record)),
    decreases fields.len(),
{
    if fields.len() == 0 {
        assert(field_properties(record) =~= Seq::empty());
    } else {
        let fewer = fields.drop_last();
        let shorter = record.drop_last();
        assert forall|i: int| 0 <= i < fewer.len() implies (#[trigger] fewer[i]).name == Some(
            shorter[i].name,
        ) && fewer[i].ty == shorter[i].ty by {
            assert(fewer[i] == fields[i]);
        }
        assert forall|i: int, j: int| 0 <= i < j < shorter.len() implies (#[trigger] shorter[i]).name
            != (#[trigger] shorter[j]).name by {
            assert(shorter[i] == record[i] && shorter[j] == record[j]);
        }
        lemma_struct_properties_of_record(fewer, shorter);
        let before = field_properties(shorter);
        let last = fields.len() - 1;
        assert(fields.last() == fields[last]);
        assert forall|j: int| 0 <= j < before.len() implies (#[trigger] before[j]).name
            != record[last].name by {
            assert(before[j].name == record[j].name);
        }
        assert(!has_property(before, record[last].name));
        assert(before.push(
            PropertyView {
                name: record[last].name,
                schema: SchemaRefView::Item(schema_of(record[last].ty)),
            },
        ) =~= field_properties(record));
    }
}

/// The schema that is derived for a struct is the schema of the record that
/// it declares, under the name of the record.  So a reference to the record
/// ([`DescribeSchema::reference_or_schema`]) refers to the schema that is
/// derived for the struct.
pub proof fn lemma_derived_is_schema_of_record(fields: Seq<FieldDeclView>, record: RecordView)
    requires
        declares(fields, record.fields),
        well_formed_shape(TypeShapeView::Record(record)),
    ensures
        derived_struct(record.name, fields) == Ok::<_, SchemaError>(
            SchemaDescriptionView {
                schema: schema_of(TypeShapeView::Record(record)),
                name: record.name,
            },
        ),
{
    lemma_struct_properties_of_record(fields, record.fields);
    lemma_schema_of_record(record);
}

/// What an error says, in words.
pub open spec fn schema_error_text(error: SchemaError) -> Seq<char> {
    match error {
        SchemaError::UnsupportedEnum => "an enum has no schema"@,
        SchemaError::UnsupportedUnion => "a union has no schema"@,
        SchemaError::UnnamedField(_) => "a member of the struct has no name"@,
        SchemaError::DuplicateField(_) => "two members of the struct have the same name"@,
    }
}

impl SchemaError {
    /// What the error says, in words.
    pub fn message(&self) -> (r: String)
        ensures
            r@ == schema_error_text(*self),
    {
        match self {
            SchemaError::UnsupportedEnum => String::from_str("an enum has no schema"),
            SchemaError::UnsupportedUnion => String::from_str("a union has no schema"),
            SchemaError::UnnamedField(_) => String::from_str("a member of the struct has no name"),
            SchemaError::DuplicateField(_) => String::from_str(
                "two members of the struct have the same name",
            ),
        }
    }
}

} // verus!
