//! The data model of a schema: types, default values, fields and declarations,
//! each with the mathematical view that the contracts speak of.

use vstd::prelude::*;

verus! {

/// Why a comparison could not reach a verdict.
#[derive(Clone, Copy, Debug, PartialEq, Eq)]
pub enum SchemaError {
    /// A tagged union carried a tag that this model has no variant for.
    UnknownKind(u16),
    /// The base snapshot holds no declaration under this identifier.
    MissingNode(u64),
    /// The declaration under this identifier lies deeper than the traversal
    /// was allowed to descend.
    TooDeep(u64),
}

/// The three flavours of an opaque pointer slot.
#[derive(Clone, Copy, Debug, PartialEq, Eq)]
pub enum AnyPointerKind {
    /// A truly dynamic, untyped pointer.
    Unconstrained,
    /// A generic parameter that is bound where the declaration is used.
    Parameter,
    /// A parameter that a generic method binds implicitly.
    ImplicitMethodParameter,
    /// A flavour this model does not know, with its tag.
    Unknown(u16),
}

/// The type of a slot. It holds no collection, so it is its own model.
#[derive(Debug, PartialEq, Eq)]
pub enum Type {
    Void,
    Bool,
    Int8,
    Int16,
    Int32,
    Int64,
    Uint8,
    Uint16,
    Uint32,
    Uint64,
    Float32,
    Float64,
    Text,
    Data,
    /// A list, with the type of its elements.
    List(Box<Type>),
    /// An enumeration, by the identifier of its declaration.
    Enum(u64),
    /// A struct, by the identifier of its declaration.
    Struct(u64),
    /// An interface, by the identifier of its declaration.
    Interface(u64),
    /// An opaque pointer.
    AnyPointer(AnyPointerKind),
    /// A type this model does not know, with its tag.
    Unknown(u16),
}

impl Clone for Type {
    fn clone(&self) -> (r: Self)
        ensures
            r == *self,
        decreases *self,
    {
        match self {
            Type::Void => Type::Void,
            Type::Bool => Type::Bool,
            Type::Int8 => Type::Int8,
            Type::Int16 => Type::Int16,
            Type::Int32 => Type::Int32,
            Type::Int64 => Type::Int64,
            Type::Uint8 => Type::Uint8,
            Type::Uint16 => Type::Uint16,
            Type::Uint32 => Type::Uint32,
            Type::Uint64 => Type::Uint64,
            Type::Float32 => Type::Float32,
            Type::Float64 => Type::Float64,
            Type::Text => Type::Text,
            Type::Data => Type::Data,
            Type::List(element) => {
                let copy = (**element).clone();
                Type::List(Box::new(copy))
            },
            Type::Enum(id) => Type::Enum(*id),
            Type::Struct(id) => Type::Struct(*id),
            Type::Interface(id) => Type::Interface(*id),
            Type::AnyPointer(kind) => Type::AnyPointer(*kind),
            Type::Unknown(tag) => Type::Unknown(*tag),
        }
    }
}

impl Type {
    /// Tells whether the type can be compared with itself: whether it is
    /// neither an unknown type nor a list of one.
    pub open spec fn is_known(self) -> bool
        decreases self,
    {
        match self {
            Type::Unknown(_) => false,
            Type::List(element) => element.is_known(),
            _ => true,
        }
    }

    /// The scalar, text and byte-string types: those without a parameter.
    pub open spec fn is_primitive(self) -> bool {
        match self {
            Type::List(_) | Type::Enum(_) | Type::Struct(_) | Type::Interface(_)
            | Type::AnyPointer(_) | Type::Unknown(_) => false,
            _ => true,
        }
    }
}

/// A default value. A floating-point default is held as its bit pattern, and
/// a list default as the bytes of its encoding. The payload of a struct,
/// interface or opaque-pointer default is not resolved, so none is held.
#[derive(Clone, Debug, PartialEq, Eq)]
pub enum Value {
    Void,
    Bool(bool),
    Int8(i8),
    Int16(i16),
    Int32(i32),
    Int64(i64),
    Uint8(u8),
    Uint16(u16),
    Uint32(u32),
    Uint64(u64),
    /// The IEEE 754 bit pattern of a 32-bit float.
    Float32(u32),
    /// The IEEE 754 bit pattern of a 64-bit float.
    Float64(u64),
    Text(String),
    Data(Vec<u8>),
    /// The encoded bytes of a list.
    List(Vec<u8>),
    /// The ordinal of an enumerant.
    Enum(u16),
    Struct,
    Interface,
    AnyPointer,
    /// A value of a kind this model does not know, with its tag.
    Unknown(u16),
}

/// The model of a [`Value`]: text as characters, bytes as a sequence.
pub enum ValueView {
    Void,
    Bool(bool),
    Int8(i8),
    Int16(i16),
    Int32(i32),
    Int64(i64),
    Uint8(u8),
    Uint16(u16),
    Uint32(u32),
    Uint64(u64),
    Float32(u32),
    Float64(u64),
    Text(Seq<char>),
    Data(Seq<u8>),
    List(Seq<u8>),
    Enum(u16),
    Struct,
    Interface,
    AnyPointer,
    Unknown(u16),
}

impl View for Value {
    type V = ValueView;

    open spec fn view(&self) -> ValueView {
        match *self {
            Value::Void => ValueView::Void,
            Value::Bool(b) => ValueView::Bool(b),
            Value::Int8(n) => ValueView::Int8(n),
            Value::Int16(n) => ValueView::Int16(n),
            Value::Int32(n) => ValueView::Int32(n),
            Value::Int64(n) => ValueView::Int64(n),
            Value::Uint8(n) => ValueView::Uint8(n),
            Value::Uint16(n) => ValueView::Uint16(n),
            Value::Uint32(n) => ValueView::Uint32(n),
            Value::Uint64(n) => ValueView::Uint64(n),
            Value::Float32(bits) => ValueView::Float32(bits),
            Value::Float64(bits) => ValueView::Float64(bits),
            Value::Text(text) => ValueView::Text(text@),
            Value::Data(bytes) => ValueView::Data(bytes@),
            Value::List(bytes) => ValueView::List(bytes@),
            Value::Enum(ordinal) => ValueView::Enum(ordinal),
            Value::Struct => ValueView::Struct,
            Value::Interface => ValueView::Interface,
            Value::AnyPointer => ValueView::AnyPointer,
            Value::Unknown(tag) => ValueView::Unknown(tag),
        }
    }
}

/// The discriminant of a field that belongs to no union.
pub const NO_DISCRIMINANT: u16 = 0xffff;

/// A field that occupies a slot of its struct: a type, and a default value
/// where one is declared.
#[derive(Clone, Debug, PartialEq, Eq)]
pub struct Slot {
    pub ty: Type,
    pub default_value: Option<Value>,
}

/// The model of a [`Slot`].
pub struct SlotView {
    pub ty: Type,
    pub default_value: Option<ValueView>,
}

impl View for Slot {
    type V = SlotView;

    open spec fn view(&self) -> SlotView {
        SlotView {
            ty: self.ty,
            default_value: match self.default_value {
                Some(value) => Some(value@),
                None => None,
            },
        }
    }
}

impl SlotView {
    /// Tells whether the type and the default of the slot are of known kinds.
    pub open spec fn is_known(self) -> bool {
        &&& self.ty.is_known()
        &&& self.default_value matches Some(value) ==> !(value is Unknown)
    }
}

/// A field that groups other fields: it names the struct declaration that
/// holds them. It is its own model.
#[derive(Clone, Copy, Debug, PartialEq, Eq)]
pub struct Group {
    pub type_id: u64,
}

/// What a field is.
#[derive(Clone, Debug, PartialEq, Eq)]
pub enum FieldKind {
    Slot(Slot),
    Group(Group),
    /// A kind of field this model does not know, with its tag.
    Unknown(u16),
}

/// The model of a [`FieldKind`].
pub enum FieldKindView {
    Slot(SlotView),
    Group(Group),
    Unknown(u16),
}

impl View for FieldKind {
    type V = FieldKindView;

    open spec fn view(&self) -> FieldKindView {
        match *self {
            FieldKind::Slot(slot) => FieldKindView::Slot(slot@),
            FieldKind::Group(group) => FieldKindView::Group(group),
            FieldKind::Unknown(tag) => FieldKindView::Unknown(tag),
        }
    }
}

/// A field of a struct. Its code order is its position on the wire; its
/// discriminant tells which member of a union it is, or is
/// [`NO_DISCRIMINANT`].
#[derive(Clone, Debug, PartialEq, Eq)]
pub struct Field {
    pub name: String,
    pub code_order: u16,
    pub discriminant_value: u16,
    pub kind: FieldKind,
}

/// The model of a [`Field`].
pub struct FieldView {
    pub name: Seq<char>,
    pub code_order: u16,
    pub discriminant_value: u16,
    pub kind: FieldKindView,
}

impl View for Field {
    type V = FieldView;

    open spec fn view(&self) -> FieldView {
        FieldView {
            name: self.name@,
            code_order: self.code_order,
            discriminant_value: self.discriminant_value,
            kind: self.kind@,
        }
    }
}

/// The models of a sequence of fields, in the same order.
pub open spec fn field_views(fields: Seq<Field>) -> Seq<FieldView> {
    fields.map_values(|field: Field| field@)
}

/// The body of a struct declaration: its fields, in the order in which they
/// were given.
#[derive(Clone, Debug, PartialEq, Eq)]
pub struct StructNode {
    pub fields: Vec<Field>,
}

/// The model of a [`StructNode`].
pub struct StructView {
    pub fields: Seq<FieldView>,
}

impl View for StructNode {
    type V = StructView;

    open spec fn view(&self) -> StructView {
        StructView { fields: field_views(self.fields@) }
    }
}

/// The body of an enum declaration. The comparison reads nothing of it.
#[derive(Clone, Copy, Debug, PartialEq, Eq)]
pub struct EnumNode {}

/// The body of an interface declaration. The comparison reads nothing of it.
#[derive(Clone, Copy, Debug, PartialEq, Eq)]
pub struct InterfaceNode {}

/// The body of a constant declaration. The comparison reads nothing of it.
#[derive(Clone, Copy, Debug, PartialEq, Eq)]
pub struct ConstNode {}

/// The body of an annotation declaration. The comparison reads nothing of it.
#[derive(Clone, Copy, Debug, PartialEq, Eq)]
pub struct AnnotationNode {}

/// What a declaration is.
#[derive(Clone, Debug, PartialEq, Eq)]
pub enum NodeKind {
    File,
    Struct(StructNode),
    Enum(EnumNode),
    Interface(InterfaceNode),
    Const(ConstNode),
    Annotation(AnnotationNode),
    /// A kind of declaration this model does not know, with its tag.
    Unknown(u16),
}

/// The model of a [`NodeKind`].
pub enum NodeKindView {
    File,
    Struct(StructView),
    Enum,
    Interface,
    Const,
    Annotation,
    Unknown(u16),
}

impl View for NodeKind {
    type V = NodeKindView;

    open spec fn view(&self) -> NodeKindView {
        match *self {
            NodeKind::File => NodeKindView::File,
            NodeKind::Struct(body) => NodeKindView::Struct(body@),
            NodeKind::Enum(_) => NodeKindView::Enum,
            NodeKind::Interface(_) => NodeKindView::Interface,
            NodeKind::Const(_) => NodeKindView::Const,
            NodeKind::Annotation(_) => NodeKindView::Annotation,
            NodeKind::Unknown(tag) => NodeKindView::Unknown(tag),
        }
    }
}

/// One declaration of a schema: its global identifier, the name under which
/// it is reported, the identifiers of the declarations nested in it, and what
/// it declares.
#[derive(Clone, Debug, PartialEq, Eq)]
pub struct Node {
    pub id: u64,
    pub display_name: String,
    pub nested: Vec<u64>,
    pub kind: NodeKind,
}

/// The model of a [`Node`].
pub struct NodeView {
    pub id: u64,
    pub display_name: Seq<char>,
    pub nested: Seq<u64>,
    pub kind: NodeKindView,
}

impl View for Node {
    type V = NodeView;

    open spec fn view(&self) -> NodeView {
        NodeView {
            id: self.id,
            display_name: self.display_name@,
            nested: self.nested@,
            kind: self.kind@,
        }
    }
}

} // verus!
