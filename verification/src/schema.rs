//! The schema model: what a value looks like, as a small tree of nodes, and
//! the mapping from the shape of a data type to its schema.

use crate::text::{clone_strings, texts};
use vstd::prelude::*;
use vstd::string::*;

verus! {

/// The primitive kinds of value, each with the format it is written in.
#[derive(Debug, Clone, Copy, PartialEq, Eq, Structural)]
pub enum Primitive {
    /// `integer` / `int32`
    Int32,
    /// `integer` / `int64`
    Int64,
    /// `number` / `float`
    Float,
    /// `number` / `double`
    Double,
    /// `boolean`
    Boolean,
    /// `string`
    Text,
}

/// One named member of an object schema.
#[derive(Debug, PartialEq, Eq)]
pub struct Property {
    pub name: String,
    pub schema: SchemaRef,
}

/// What kind of value a schema node describes.
#[derive(Debug, PartialEq, Eq)]
pub enum SchemaKind {
    Primitive(Primitive),
    Array { items: Box<SchemaRef>, min_items: Option<usize>, max_items: Option<usize> },
    Object { properties: Vec<Property>, required: Vec<String> },
}

/// A schema node.  Whether the value may be null is a flag on the node.
#[derive(Debug, PartialEq, Eq)]
pub struct Schema {
    pub nullable: bool,
    pub kind: SchemaKind,
}

/// A schema written out in place, or a reference to a named one.
#[derive(Debug, PartialEq, Eq)]
pub enum SchemaRef {
    Reference(String),
    Item(Schema),
}

/// The mathematical value of a [`Property`].
pub struct PropertyView {
    pub name: Seq<char>,
    pub schema: SchemaRefView,
}

/// The mathematical value of a [`SchemaKind`].
pub enum SchemaKindView {
    Primitive(Primitive),
    Array { items: Box<SchemaRefView>, min_items: Option<usize>, max_items: Option<usize> },
    Object { properties: Seq<PropertyView>, required: Seq<Seq<char>> },
}

/// The mathematical value of a [`Schema`].
pub struct SchemaView {
    pub nullable: bool,
    pub kind: SchemaKindView,
}

/// The mathematical value of a [`SchemaRef`].
pub enum SchemaRefView {
    Reference(Seq<char>),
    Item(SchemaView),
}

pub open spec fn schema_view(s: Schema) -> SchemaView
    decreases s,
{
    SchemaView {
        nullable: s.nullable,
        kind: match s.kind {
            SchemaKind::Primitive(p) => SchemaKindView::Primitive(p),
            SchemaKind::Array { items, min_items, max_items } => SchemaKindView::Array {
                items: Box::new(schema_ref_view(*items)),
                min_items,
                max_items,
            },
            SchemaKind::Object { properties, required } => SchemaKindView::Object {
                properties: Seq::new(
                    properties.len() as nat,
                    |i: int|
                        if 0 <= i < properties.len() {
                            PropertyView {
                                name: properties[i].name@,
                                schema: schema_ref_view(properties[i].schema),
                            }
                        } else {
                            arbitrary()
                        },
                ),
                required: Seq::new(required.len() as nat, |i: int| required[i]@),
            },
        },
    }
}

pub open spec fn schema_ref_view(r: SchemaRef) -> SchemaRefView
    decreases r,
{
    match r {
        SchemaRef::Reference(name) => SchemaRefView::Reference(name@),
        SchemaRef::Item(s) => SchemaRefView::Item(schema_view(s)),
    }
}

impl View for Schema {
    type V = SchemaView;

    open spec fn view(&self) -> SchemaView {
        schema_view(*self)
    }
}

impl View for SchemaRef {
    type V = SchemaRefView;

    open spec fn view(&self) -> SchemaRefView {
        schema_ref_view(*self)
    }
}

impl View for Property {
    type V = PropertyView;

    open spec fn view(&self) -> PropertyView {
        PropertyView { name: self.name@, schema: self.schema@ }
    }
}

/// The values of a list of properties.
pub open spec fn property_views(v: Seq<Property>) -> Seq<PropertyView> {
    Seq::new(v.len(), |i: int| v[i]@)
}

/// The view of an object schema is made of the views of its properties.
pub proof fn lemma_object_view(s: Schema)
    requires
        s.kind is Object,
    ensures
        s@.kind == (SchemaKindView::Object {
            properties: property_views(s.kind->properties@),
            required: texts(s.kind->required@),
        }),
        s@.nullable == s.nullable,
{
    assert(s@.kind->properties =~= property_views(s.kind->properties@));
    assert(s@.kind->required =~= texts(s.kind->required@));
}

/// Copies a list of properties.
pub fn clone_properties(v: &Vec<Property>) -> (r: Vec<Property>)
    ensures
        property_views(r@) == property_views(v@),
    decreases v,
{
    broadcast use vstd::std_specs::vec::axiom_vec_index_decreases;

    let mut out: Vec<Property> = Vec::new();
    let mut i: usize = 0;
    while i < v.len()
        invariant
            i <= v.len(),
            out.len() == i,
            forall|j: int| 0 <= j < i ==> out[j]@ == v[j]@,
        decreases v.len() - i,
    {
        let p = Property { name: v[i].name.clone(), schema: v[i].schema.clone() };
        out.push(p);
        i += 1;
    }
    assert(property_views(out@) =~= property_views(v@));
    out
}

impl Clone for SchemaRef {
    fn clone(&self) -> (r: SchemaRef)
        ensures
            r@ == self@,
        decreases self,
    {
        match self {
            SchemaRef::Reference(name) => SchemaRef::Reference(name.clone()),
            SchemaRef::Item(s) => SchemaRef::Item(s.clone()),
        }
    }
}

impl Clone for Schema {
    fn clone(&self) -> (r: Schema)
        ensures
            r@ == self@,
        decreases self,
    {
        match &self.kind {
            SchemaKind::Primitive(p) => Schema {
                nullable: self.nullable,
                kind: SchemaKind::Primitive(*p),
            },
            SchemaKind::Array { items, min_items, max_items } => {
                let inner: &SchemaRef = &**items;
                Schema {
                    nullable: self.nullable,
                    kind: SchemaKind::Array {
                        items: Box::new(inner.clone()),
                        min_items: *min_items,
                        max_items: *max_items,
                    },
                }
            },
            SchemaKind::Object { properties, required } => {
                let r = Schema {
                    nullable: self.nullable,
                    kind: SchemaKind::Object {
                        properties: clone_properties(properties),
                        required: clone_strings(required),
                    },
                };
                proof {
                    lemma_object_view(r);
                    lemma_object_view(*self);
                }
                r
            },
        }
    }
}

impl Clone for Property {
    fn clone(&self) -> (r: Property)
        ensures
            r@ == self@,
    {
        Property { name: self.name.clone(), schema: self.schema.clone() }
    }
}

/// A schema of the given kind that does not admit null.
pub fn ty_schema(kind: SchemaKind) -> (r: Schema)
    ensures
        r == (Schema { nullable: false, kind }),
{
    Schema { nullable: false, kind }
}

/// The shape of a data type, as far as its schema depends on it.
#[derive(Debug, PartialEq, Eq)]
pub enum TypeShape {
    /// A 32-bit integer.
    Int32,
    /// A 64-bit integer.
    Int64,
    /// A number of single precision.
    Float,
    /// A number of double precision.
    Double,
    /// A truth value.
    Bool,
    /// A string.
    Str,
    /// A sequence of any length.
    List(Box<TypeShape>),
    /// A sequence of a fixed length.
    Array(Box<TypeShape>, usize),
    /// A value that may be absent.
    Optional(Box<TypeShape>),
    /// A record with named members.
    Record(Record),
}

/// A record type: its name and its members in the order of declaration.
#[derive(Debug, PartialEq, Eq)]
pub struct Record {
    pub name: String,
    pub fields: Vec<Field>,
}

/// A member of a record.
#[derive(Debug, PartialEq, Eq)]
pub struct Field {
    pub name: String,
    pub ty: TypeShape,
}

/// The mathematical value of a [`TypeShape`].
pub enum TypeShapeView {
    Int32,
    Int64,
    Float,
    Double,
    Bool,
    Str,
    List(Box<TypeShapeView>),
    Array(Box<TypeShapeView>, usize),
    Optional(Box<TypeShapeView>),
    Record(RecordView),
}

/// The mathematical value of a [`Record`].
pub struct RecordView {
    pub name: Seq<char>,
    pub fields: Seq<FieldView>,
}

/// The mathematical value of a [`Field`].
pub struct FieldView {
    pub name: Seq<char>,
    pub ty: TypeShapeView,
}

pub open spec fn shape_view(shape: TypeShape) -> TypeShapeView
    decreases shape,
{
    match shape {
        TypeShape::Int32 => TypeShapeView::Int32,
        TypeShape::Int64 => TypeShapeView::Int64,
        TypeShape::Float => TypeShapeView::Float,
        TypeShape::Double => TypeShapeView::Double,
        TypeShape::Bool => TypeShapeView::Bool,
        TypeShape::Str => TypeShapeView::Str,
        TypeShape::List(item) => TypeShapeView::List(Box::new(shape_view(*item))),
        TypeShape::Array(item, n) => TypeShapeView::Array(Box::new(shape_view(*item)), n),
        TypeShape::Optional(inner) => TypeShapeView::Optional(Box::new(shape_view(*inner))),
        TypeShape::Record(record) => TypeShapeView::Record(
            RecordView {
                name: record.name@,
                fields: Seq::new(
                    record.fields.len() as nat,
                    |i: int|
                        if 0 <= i < record.fields.len() {
                            FieldView {
                                name: record.fields[i].name@,
                                ty: shape_view(record.fields[i].ty),
                            }
                        } else {
                            arbitrary()
                        },
                ),
            },
        ),
    }
}

impl View for TypeShape {
    type V = TypeShapeView;

    open spec fn view(&self) -> TypeShapeView {
        shape_view(*self)
    }
}

impl View for Field {
    type V = FieldView;

    open spec fn view(&self) -> FieldView {
        FieldView { name: self.name@, ty: self.ty@ }
    }
}

/// The values of a list of members.
pub open spec fn field_views(v: Seq<Field>) -> Seq<FieldView> {
    Seq::new(v.len(), |i: int| v[i]@)
}

impl View for Record {
    type V = RecordView;

    open spec fn view(&self) -> RecordView {
        RecordView { name: self.name@, fields: field_views(self.fields@) }
    }
}

/// The value of a record shape is the value of its record.
pub proof fn lemma_record_view(record: Record)
    ensures
        TypeShape::Record(record)@ == TypeShapeView::Record(record@),
{
    assert(TypeShape::Record(record)@->Record_0.fields =~= field_views(record.fields@));
}

/// The schema of a primitive kind.
pub open spec fn primitive_schema(p: Primitive) -> SchemaView {
    SchemaView { nullable: false, kind: SchemaKindView::Primitive(p) }
}

/// The schema of an array whose items have the schema `items`.
pub open spec fn array_schema(items: SchemaView, length: Option<usize>) -> SchemaView {
    SchemaView {
        nullable: false,
        kind: SchemaKindView::Array {
            items: Box::new(SchemaRefView::Item(items)),
            min_items: length,
            max_items: length,
        },
    }
}

/// The object schema with the given properties, none of them required.
pub open spec fn object_schema(properties: Seq<PropertyView>) -> SchemaView {
    SchemaView {
        nullable: false,
        kind: SchemaKindView::Object { properties, required: Seq::empty() },
    }
}

/// The schema of a type of the given shape.
///
/// - A primitive type has the schema of its kind.
/// - A sequence is an array of items of the schema of its items; one of a
///   fixed length has exactly that many.
/// - An optional value has the schema of the value, and may be null.
/// - A record is an object with one property for each member, in the
///   order of declaration, each described in place; no property is
///   required.
pub open spec fn schema_of(shape: TypeShapeView) -> SchemaView
    decreases shape,
{
    match shape {
        TypeShapeView::Int32 => primitive_schema(Primitive::Int32),
        TypeShapeView::Int64 => primitive_schema(Primitive::Int64),
        TypeShapeView::Float => primitive_schema(Primitive::Float),
        TypeShapeView::Double => primitive_schema(Primitive::Double),
        TypeShapeView::Bool => primitive_schema(Primitive::Boolean),
        TypeShapeView::Str => primitive_schema(Primitive::Text),
        TypeShapeView::List(item) => array_schema(schema_of(*item), None),
        TypeShapeView::Array(item, n) => array_schema(schema_of(*item), Some(n)),
        TypeShapeView::Optional(inner) => SchemaView {
            nullable: true,
            kind: schema_of(*inner).kind,
        },
        TypeShapeView::Record(record) => object_schema(
            Seq::new(
                record.fields.len(),
                |i: int|
                    if 0 <= i < record.fields.len() {
                        PropertyView {
                            name: record.fields[i].name,
                            schema: SchemaRefView::Item(schema_of(record.fields[i].ty)),
                        }
                    } else {
                        arbitrary()
                    },
            ),
        ),
    }
}

/// The name under which a type of the given shape is listed among the named
/// schemas of a document, if it is listed there.
pub open spec fn ref_name_of(shape: TypeShapeView) -> Option<Seq<char>> {
    match shape {
        TypeShapeView::Record(record) => Some(record.name),
        _ => None,
    }
}

/// The reference to the named schema `name`.
pub open spec fn reference_to(name: Seq<char>) -> Seq<char> {
    "#/components/schemas/"@ + name
}

/// A reference to the named schema of the shape where it has one, else its
/// schema in place.
pub open spec fn reference_or_schema_of(shape: TypeShapeView) -> SchemaRefView {
    match ref_name_of(shape) {
        Some(name) => SchemaRefView::Reference(reference_to(name)),
        None => SchemaRefView::Item(schema_of(shape)),
    }
}

/// The properties that the members of a record give.
pub open spec fn field_properties(fields: Seq<FieldView>) -> Seq<PropertyView> {
    Seq::new(
        fields.len(),
        |i: int|
            PropertyView { name: fields[i].name, schema: SchemaRefView::Item(schema_of(fields[i].ty)) },
    )
}

/// An optional value has the schema of the value but for the flag that
/// admits null, whatever the value is; and a sequence of a fixed length
/// `n` is an array of at least and at most `n` items of the schema of its
/// items.  An optional 32-bit integer is a nullable `integer` / `int32`.
pub proof fn lemma_schema_of_optional_and_array(shape: TypeShapeView, n: usize)
    ensures
        schema_of(TypeShapeView::Optional(Box::new(shape))) == (SchemaView {
            nullable: true,
            kind: schema_of(shape).kind,
        }),
        schema_of(TypeShapeView::Array(Box::new(shape), n)) == (SchemaView {
            nullable: false,
            kind: SchemaKindView::Array {
                items: Box::new(SchemaRefView::Item(schema_of(shape))),
                min_items: Some(n),
                max_items: Some(n),
            },
        }),
        schema_of(TypeShapeView::Optional(Box::new(TypeShapeView::Int32))) == (SchemaView {
            nullable: true,
            kind: SchemaKindView::Primitive(Primitive::Int32),
        }),
{
    reveal_with_fuel(schema_of, 2);
}

/// The schema of a record is the object of the properties of its members.
pub proof fn lemma_schema_of_record(record: RecordView)
    ensures
        schema_of(TypeShapeView::Record(record)) == object_schema(field_properties(record.fields)),
{
    assert(schema_of(TypeShapeView::Record(record)).kind->properties =~= field_properties(
        record.fields,
    ));
}

/// Describes each member of a record.
pub fn describe_fields(fields: &Vec<Field>) -> (r: Vec<Property>)
    ensures
        property_views(r@) == field_properties(field_views(fields@)),
    decreases fields,
{
    broadcast use vstd::std_specs::vec::axiom_vec_index_decreases;

    let mut out: Vec<Property> = Vec::new();
    let mut i: usize = 0;
    while i < fields.len()
        invariant
            i <= fields.len(),
            out.len() == i,
            forall|j: int| 0 <= j < i ==> out[j]@ == field_properties(field_views(fields@))[j],
        decreases fields.len() - i,
    {
        let p = Property {
            name: fields[i].name.clone(),
            schema: SchemaRef::Item(fields[i].ty.describe_schema()),
        };
        out.push(p);
        i += 1;
    }
    assert(property_views(out@) =~= field_properties(field_views(fields@)));
    out
}

impl TypeShape {
    /// Whether the schema of a type of this shape is an object: the shape
    /// is a record, or an optional value whose schema is one.
    pub fn describes_object(&self) -> (r: bool)
        ensures
            r == schema_of(self@).kind is Object,
        decreases self,
    {
        match self {
            TypeShape::Record(record) => {
                proof {
                    lemma_record_view(*record);
                }
                true
            },
            TypeShape::Optional(inner) => {
                let inner: &TypeShape = &**inner;
                inner.describes_object()
            },
            _ => false,
        }
    }
}

/// What can be described by a schema.
pub trait DescribeSchema {
    /// The schema, as a mathematical value.
    spec fn schema(&self) -> SchemaView;

    /// The name under which a document lists the schema among its named
    /// schemas, if it does.
    spec fn name(&self) -> Option<Seq<char>>;

    /// The schema.
    fn describe_schema(&self) -> (r: Schema)
        ensures
            r@ == self.schema(),
    ;

    /// The name under which a document lists the schema among its named
    /// schemas.  With a name, the schema is referred to where it is used;
    /// without, it is written out there.
    fn ref_name(&self) -> (r: Option<String>)
        ensures
            r is Some == self.name() is Some,
            r matches Some(name) ==> Some(name@) == self.name(),
    ;

    /// A reference to the named schema where there is a name, else the
    /// schema in place.
    fn reference_or_schema(&self) -> (r: SchemaRef)
        ensures
            r@ == match self.name() {
                Some(name) => SchemaRefView::Reference(reference_to(name)),
                None => SchemaRefView::Item(self.schema()),
            },
    {
        match self.ref_name() {
            Some(name) => {
                let mut reference = String::from_str("#/components/schemas/");
                reference.append(name.as_str());
                SchemaRef::Reference(reference)
            },
            None => SchemaRef::Item(self.describe_schema()),
        }
    }
}

impl DescribeSchema for TypeShape {
    open spec fn schema(&self) -> SchemaView {
        schema_of(self@)
    }

    open spec fn name(&self) -> Option<Seq<char>> {
        ref_name_of(self@)
    }

    /// The schema of a type of this shape.
    fn describe_schema(&self) -> (r: Schema)
        decreases self,
    {
        match self {
            TypeShape::Int32 => ty_schema(SchemaKind::Primitive(Primitive::Int32)),
            TypeShape::Int64 => ty_schema(SchemaKind::Primitive(Primitive::Int64)),
            TypeShape::Float => ty_schema(SchemaKind::Primitive(Primitive::Float)),
            TypeShape::Double => ty_schema(SchemaKind::Primitive(Primitive::Double)),
            TypeShape::Bool => ty_schema(SchemaKind::Primitive(Primitive::Boolean)),
            TypeShape::Str => ty_schema(SchemaKind::Primitive(Primitive::Text)),
            TypeShape::List(item) => {
                let inner: &TypeShape = &**item;
                ty_schema(
                    SchemaKind::Array {
                        items: Box::new(SchemaRef::Item(inner.describe_schema())),
                        min_items: None,
                        max_items: None,
                    },
                )
            },
            TypeShape::Array(item, n) => {
                let inner: &TypeShape = &**item;
                ty_schema(
                    SchemaKind::Array {
                        items: Box::new(SchemaRef::Item(inner.describe_schema())),
                        min_items: Some(*n),
                        max_items: Some(*n),
                    },
                )
            },
            TypeShape::Optional(inner) => {
                let inner: &TypeShape = &**inner;
                let mut schema = inner.describe_schema();
                schema.nullable = true;
                schema
            },
            TypeShape::Record(record) => {
                let r = ty_schema(
                    SchemaKind::Object {
                        properties: describe_fields(&record.fields),
                        required: Vec::new(),
                    },
                );
                proof {
                    lemma_object_view(r);
                    lemma_record_view(*record);
                    lemma_schema_of_record(record@);
                    assert(texts(r.kind->required@) =~= Seq::<Seq<char>>::empty());
                }
                r
            },
        }
    }

    /// Records are listed by their name; nothing else is listed.
    fn ref_name(&self) -> (r: Option<String>) {
        match self {
            TypeShape::Record(record) => Some(record.name.clone()),
            _ => None,
        }
    }
}

/// The name of the type of a primitive kind, as a document writes it.
pub open spec fn kind_name_of(p: Primitive) -> Seq<char> {
    match p {
        Primitive::Int32 | Primitive::Int64 => "integer"@,
        Primitive::Float | Primitive::Double => "number"@,
        Primitive::Boolean => "boolean"@,
        Primitive::Text => "string"@,
    }
}

/// The name of the format of a primitive kind, where it has one.
pub open spec fn format_of(p: Primitive) -> Option<Seq<char>> {
    match p {
        Primitive::Int32 => Some("int32"@),
        Primitive::Int64 => Some("int64"@),
        Primitive::Float => Some("float"@),
        Primitive::Double => Some("double"@),
        Primitive::Boolean | Primitive::Text => None,
    }
}

impl Primitive {
    /// The name of the type, as a document writes it.
    pub fn kind_name(&self) -> (r: &'static str)
        ensures
            r@ == kind_name_of(*self),
    {
        match self {
            Primitive::Int32 | Primitive::Int64 => "integer",
            Primitive::Float | Primitive::Double => "number",
            Primitive::Boolean => "boolean",
            Primitive::Text => "string",
        }
    }

    /// The name of the format, where there is one.
    pub fn format(&self) -> (r: Option<&'static str>)
        ensures
            match r {
                Some(name) => Some(name@),
                None => None,
            } == format_of(*self),
    {
        match self {
            Primitive::Int32 => Some("int32"),
            Primitive::Int64 => Some("int64"),
            Primitive::Float => Some("float"),
            Primitive::Double => Some("double"),
            Primitive::Boolean | Primitive::Text => None,
        }
    }
}

/// No two properties have the same name.
pub open spec fn distinct_property_names(props: Seq<PropertyView>) -> bool {
    forall|i: int, j: int|
        0 <= i < j < props.len() ==> (#[trigger] props[i]).name != (#[trigger] props[j]).name
}

/// No object of the schema, however deep, has two properties of the same
/// name.
pub open spec fn well_formed(s: SchemaView) -> bool
    decreases s,
{
    match s.kind {
        SchemaKindView::Primitive(_) => true,
        SchemaKindView::Array { items, min_items, max_items } => well_formed_ref(*items),
        SchemaKindView::Object { properties, required } => distinct_property_names(properties)
            && forall|i: int|
            0 <= i < properties.len() ==> well_formed_ref((#[trigger] properties[i]).schema),
    }
}

/// A reference is well formed; a schema in place is if it is itself.
pub open spec fn well_formed_ref(r: SchemaRefView) -> bool
    decreases r,
{
    match r {
        SchemaRefView::Reference(_) => true,
        SchemaRefView::Item(s) => well_formed(s),
    }
}

/// No record of the shape, however deep, has two members of the same name.
pub open spec fn well_formed_shape(shape: TypeShapeView) -> bool
    decreases shape,
{
    match shape {
        TypeShapeView::List(item) => well_formed_shape(*item),
        TypeShapeView::Array(item, _) => well_formed_shape(*item),
        TypeShapeView::Optional(inner) => well_formed_shape(*inner),
        TypeShapeView::Record(record) => (forall|i: int, j: int|
            0 <= i < j < record.fields.len() ==> (#[trigger] record.fields[i]).name != (
            #[trigger] record.fields[j]).name) && forall|i: int|
            0 <= i < record.fields.len() ==> well_formed_shape((#[trigger] record.fields[i]).ty),
        _ => true,
    }
}

/// The schema of a well-formed shape is well formed.
pub proof fn lemma_schema_of_well_formed(shape: TypeShapeView)
    requires
        well_formed_shape(shape),
    ensures
        well_formed(schema_of(shape)),
    decreases shape,
{
    match shape {
        TypeShapeView::List(item) => {
            lemma_schema_of_well_formed(*item);
        },
        TypeShapeView::Array(item, _) => {
            lemma_schema_of_well_formed(*item);
        },
        TypeShapeView::Optional(inner) => {
            lemma_schema_of_well_formed(*inner);
            assert(schema_of(shape).kind == schema_of(*inner).kind);
        },
        TypeShapeView::Record(record) => {
            let props = schema_of(shape).kind->properties;
            assert forall|i: int| 0 <= i < props.len() implies well_formed_ref(
                (#[trigger] props[i]).schema,
            ) by {
                lemma_schema_of_well_formed(record.fields[i].ty);
            }
            assert forall|i: int, j: int| 0 <= i < j < props.len() implies (#[trigger] props[i]).name
                != (#[trigger] props[j]).name by {
                assert(props[i].name == record.fields[i].name);
                assert(props[j].name == record.fields[j].name);
            }
        },
        _ => {},
    }
}

} // verus!
