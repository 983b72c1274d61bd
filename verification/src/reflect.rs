//! Reflection: values that expose their fields as named, typed properties.

use vstd::prelude::*;
use crate::error::InspectorError;
use crate::error::InspectorErrorView;

verus! {

/// The kinds of leaf value a field can hold.
#[derive(Clone, Copy, Debug, PartialEq, Eq, Structural, Hash)]
pub enum PrimitiveKind {
    Bool,
    I32,
    I64,
    U32,
    U64,
    Str,
}

/// The identity of a run-time type: one per primitive kind, and one per
/// number that an object type has chosen for itself.
#[derive(Clone, Copy, Debug, PartialEq, Eq, Structural, Hash)]
pub enum TypeId {
    Primitive(PrimitiveKind),
    Object(u64),
}

impl PrimitiveKind {
    /// The position of the kind among the kinds.
    pub open spec fn spec_index(self) -> nat {
        match self {
            PrimitiveKind::Bool => 0,
            PrimitiveKind::I32 => 1,
            PrimitiveKind::I64 => 2,
            PrimitiveKind::U32 => 3,
            PrimitiveKind::U64 => 4,
            PrimitiveKind::Str => 5,
        }
    }

    /// The position of the kind among the kinds.
    pub fn index(self) -> (n: u8)
        ensures
            n == self.spec_index(),
    {
        match self {
            PrimitiveKind::Bool => 0,
            PrimitiveKind::I32 => 1,
            PrimitiveKind::I64 => 2,
            PrimitiveKind::U32 => 3,
            PrimitiveKind::U64 => 4,
            PrimitiveKind::Str => 5,
        }
    }
}

impl TypeId {
    /// The number under which a registry files this identity. Distinct
    /// identities have distinct keys.
    pub open spec fn spec_key(self) -> nat {
        match self {
            TypeId::Primitive(kind) => kind.spec_index(),
            TypeId::Object(id) => 6 + id as nat,
        }
    }

    /// The number under which a registry files this identity.
    pub fn key(self) -> (k: u128)
        ensures
            k == self.spec_key(),
    {
        match self {
            TypeId::Primitive(kind) => kind.index() as u128,
            TypeId::Object(id) => 6u128 + id as u128,
        }
    }

    /// Distinct identities never share a key.
    pub proof fn lemma_key_injective(a: TypeId, b: TypeId)
        ensures
            a.spec_key() == b.spec_key() <==> a == b,
    {
    }
}

/// A leaf value.
#[derive(Debug, PartialEq, Eq)]
pub enum Primitive {
    Bool(bool),
    I32(i32),
    I64(i64),
    U32(u32),
    U64(u64),
    Str(String),
}

/// The mathematical value of a leaf value.
pub enum PrimitiveView {
    Bool(bool),
    I32(i32),
    I64(i64),
    U32(u32),
    U64(u64),
    Str(Seq<char>),
}

impl PrimitiveView {
    /// The kind of the value.
    pub open spec fn kind(self) -> PrimitiveKind {
        match self {
            PrimitiveView::Bool(_) => PrimitiveKind::Bool,
            PrimitiveView::I32(_) => PrimitiveKind::I32,
            PrimitiveView::I64(_) => PrimitiveKind::I64,
            PrimitiveView::U32(_) => PrimitiveKind::U32,
            PrimitiveView::U64(_) => PrimitiveKind::U64,
            PrimitiveView::Str(_) => PrimitiveKind::Str,
        }
    }
}

impl View for Primitive {
    type V = PrimitiveView;

    open spec fn view(&self) -> PrimitiveView {
        match self {
            Primitive::Bool(b) => PrimitiveView::Bool(*b),
            Primitive::I32(n) => PrimitiveView::I32(*n),
            Primitive::I64(n) => PrimitiveView::I64(*n),
            Primitive::U32(n) => PrimitiveView::U32(*n),
            Primitive::U64(n) => PrimitiveView::U64(*n),
            Primitive::Str(s) => PrimitiveView::Str(s@),
        }
    }
}

impl Clone for Primitive {
    fn clone(&self) -> (copy: Self)
        ensures
            copy@ == self@,
    {
        match self {
            Primitive::Bool(b) => Primitive::Bool(*b),
            Primitive::I32(n) => Primitive::I32(*n),
            Primitive::I64(n) => Primitive::I64(*n),
            Primitive::U32(n) => Primitive::U32(*n),
            Primitive::U64(n) => Primitive::U64(*n),
            Primitive::Str(s) => Primitive::Str(s.clone()),
        }
    }
}

impl Primitive {
    /// The kind of the value.
    pub fn kind(&self) -> (kind: PrimitiveKind)
        ensures
            kind == self@.kind(),
    {
        match self {
            Primitive::Bool(_) => PrimitiveKind::Bool,
            Primitive::I32(_) => PrimitiveKind::I32,
            Primitive::I64(_) => PrimitiveKind::I64,
            Primitive::U32(_) => PrimitiveKind::U32,
            Primitive::U64(_) => PrimitiveKind::U64,
            Primitive::Str(_) => PrimitiveKind::Str,
        }
    }

    /// Whether two leaf values are of one kind and hold the same data.
    pub fn same_as(&self, other: &Primitive) -> (same: bool)
        ensures
            same == (self@ == other@),
    {
        match (self, other) {
            (Primitive::Bool(a), Primitive::Bool(b)) => *a == *b,
            (Primitive::I32(a), Primitive::I32(b)) => *a == *b,
            (Primitive::I64(a), Primitive::I64(b)) => *a == *b,
            (Primitive::U32(a), Primitive::U32(b)) => *a == *b,
            (Primitive::U64(a), Primitive::U64(b)) => *a == *b,
            (Primitive::Str(a), Primitive::Str(b)) => *a == *b,
            _ => false,
        }
    }
}

/// A reflected value: a leaf, or an object with fields of its own.
#[derive(Debug, PartialEq, Eq)]
pub enum Value {
    Primitive(Primitive),
    Object(Object),
}

/// One named field of an object.
#[derive(Debug, PartialEq, Eq)]
pub struct Field {
    pub name: String,
    pub value: Value,
}

/// A value with fields. `type_id` is the number its type is known by; the
/// identity of that type is `TypeId::Object(type_id)`.
#[derive(Debug, PartialEq, Eq)]
pub struct Object {
    pub type_id: u64,
    pub fields: Vec<Field>,
}

/// The mathematical value of a reflected value.
pub enum ValueView {
    Primitive(PrimitiveView),
    Object(ObjectView),
}

/// The mathematical value of a field.
pub struct FieldView {
    pub name: Seq<char>,
    pub value: ValueView,
}

/// The mathematical value of an object.
pub struct ObjectView {
    pub type_id: u64,
    pub fields: Seq<FieldView>,
}

/// The mathematical value of a reflected value: names become sequences of
/// characters and lists become sequences.
pub open spec fn value_view(value: Value) -> ValueView
    decreases value,
{
    match value {
        Value::Primitive(p) => ValueView::Primitive(p@),
        Value::Object(o) => ValueView::Object(
            ObjectView {
                type_id: o.type_id,
                fields: Seq::new(
                    o.fields.len() as nat,
                    |i: int|
                        if 0 <= i < o.fields.len() {
                            FieldView {
                                name: o.fields[i].name@,
                                value: value_view(o.fields[i].value),
                            }
                        } else {
                            arbitrary()
                        },
                ),
            },
        ),
    }
}

impl View for Value {
    type V = ValueView;

    open spec fn view(&self) -> ValueView {
        value_view(*self)
    }
}

impl View for Field {
    type V = FieldView;

    open spec fn view(&self) -> FieldView {
        FieldView { name: self.name@, value: value_view(self.value) }
    }
}

impl View for Object {
    type V = ObjectView;

    open spec fn view(&self) -> ObjectView {
        match value_view(Value::Object(*self)) {
            ValueView::Object(o) => o,
            ValueView::Primitive(_) => arbitrary(),
        }
    }
}

impl ValueView {
    /// The identity of the value's run-time type.
    pub open spec fn type_id(self) -> TypeId {
        match self {
            ValueView::Primitive(p) => TypeId::Primitive(p.kind()),
            ValueView::Object(o) => TypeId::Object(o.type_id),
        }
    }
}

impl ObjectView {
    /// The identity of the object's type.
    pub open spec fn identity(self) -> TypeId {
        TypeId::Object(self.type_id)
    }

    /// No two fields of the object share a name, and the same holds of every
    /// object nested in it: a chain of field names then addresses one field.
    pub open spec fn addressable(self) -> bool
        decreases self,
    {
        &&& forall|i: int, j: int|
            0 <= i < j < self.fields.len() ==> self.fields[i].name != self.fields[j].name
        &&& forall|i: int|
            0 <= i < self.fields.len() ==> (#[trigger] self.fields[i].value matches ValueView::Object(
                inner,
            ) ==> inner.addressable())
    }

    /// The descriptor of field `i`.
    pub open spec fn property(self, i: int) -> PropertyInfoView {
        PropertyInfoView {
            name: self.fields[i].name,
            owner_type_id: self.identity(),
            value: self.fields[i].value,
        }
    }
}

impl Value {
    /// The identity of the value's run-time type.
    pub fn type_id(&self) -> (id: TypeId)
        ensures
            id == self@.type_id(),
    {
        match self {
            Value::Primitive(p) => TypeId::Primitive(p.kind()),
            Value::Object(o) => TypeId::Object(o.type_id),
        }
    }
}

/// The descriptor of one reflected field: its name, the identity of the type
/// that owns it, and its current value.
#[derive(Clone, Copy, Debug, PartialEq, Eq)]
pub struct PropertyInfo<'a> {
    pub name: &'a str,
    pub owner_type_id: TypeId,
    pub value: &'a Value,
}

/// The mathematical value of a property descriptor.
pub struct PropertyInfoView {
    pub name: Seq<char>,
    pub owner_type_id: TypeId,
    pub value: ValueView,
}

impl<'a> View for PropertyInfo<'a> {
    type V = PropertyInfoView;

    open spec fn view(&self) -> PropertyInfoView {
        PropertyInfoView {
            name: self.name@,
            owner_type_id: self.owner_type_id,
            value: (*self.value)@,
        }
    }
}

impl PropertyInfoView {
    /// The error that a cast of this property to `expected` gives when the
    /// property's value is of another type.
    pub open spec fn mismatch(self, expected: TypeId) -> InspectorErrorView {
        InspectorErrorView::TypeMismatch {
            property_name: self.name,
            expected_type_id: expected,
            actual_type_id: self.value.type_id(),
        }
    }
}

impl<'a> PropertyInfo<'a> {
    /// Views the field's value as a value of type `expected`. The cast
    /// succeeds exactly when the value's run-time type is `expected`, and
    /// otherwise reports both types.
    pub fn cast_value(&self, expected: TypeId) -> (cast: Result<&'a Value, InspectorError>)
        ensures
            self@.value.type_id() == expected ==> cast == Ok::<&Value, InspectorError>(self.value),
            self@.value.type_id() != expected ==> (cast matches Err(e) && e@ == self@.mismatch(
                expected,
            )),
    {
        let actual = self.value.type_id();
        if actual == expected {
            Ok(self.value)
        } else {
            Err(
                InspectorError::TypeMismatch {
                    property_name: self.name.to_owned(),
                    expected_type_id: expected,
                    actual_type_id: actual,
                },
            )
        }
    }
}

impl Object {
    /// What the view of an object holds.
    pub proof fn lemma_view(&self)
        ensures
            self@.type_id == self.type_id,
            self@.fields.len() == self.fields.len(),
            forall|i: int| 0 <= i < self.fields.len() ==> #[trigger] self@.fields[i] == self.fields[i]@,
            Value::Object(*self)@ == ValueView::Object(self@),
    {
    }

    /// The identity of the object's type.
    pub fn identity(&self) -> (id: TypeId)
        ensures
            id == self@.identity(),
    {
        TypeId::Object(self.type_id)
    }

    /// The object's fields as properties, in declaration order.
    pub fn properties(&self) -> (infos: Vec<PropertyInfo<'_>>)
        ensures
            infos.len() == self.fields.len(),
            forall|i: int|
                0 <= i < infos.len() ==> {
                    &&& (#[trigger] infos[i])@ == self@.property(i)
                    &&& *infos[i].value == self.fields[i].value
                },
    {
        let mut infos: Vec<PropertyInfo<'_>> = Vec::new();
        let mut i: usize = 0;
        while i < self.fields.len()
            invariant
                i <= self.fields.len(),
                infos.len() == i,
                forall|j: int|
                    0 <= j < i ==> {
                        &&& (#[trigger] infos[j])@ == self@.property(j)
                        &&& *infos[j].value == self.fields[j].value
                    },
            decreases self.fields.len() - i,
        {
            let field = &self.fields[i];
            infos.push(
                PropertyInfo {
                    name: field.name.as_str(),
                    owner_type_id: TypeId::Object(self.type_id),
                    value: &field.value,
                },
            );
            i += 1;
        }
        infos
    }

    /// Whether no two fields share a name, here and in every nested object.
    pub fn is_addressable(&self) -> (ok: bool)
        ensures
            ok == self@.addressable(),
        decreases self,
    {
        let n = self.fields.len();
        let mut i: usize = 0;
        while i < n
            invariant
                n == self.fields.len(),
                i <= n,
                forall|a: int, b: int|
                    0 <= a < b < n && a < i ==> self@.fields[a].name != self@.fields[b].name,
                forall|a: int|
                    0 <= a < i ==> (#[trigger] self@.fields[a].value matches ValueView::Object(
                        inner,
                    ) ==> inner.addressable()),
            decreases n - i,
        {
            let mut j: usize = i + 1;
            while j < n
                invariant
                    n == self.fields.len(),
                    i < j <= n,
                    forall|b: int|
                        i < b < j ==> self@.fields[i as int].name != self@.fields[b].name,
                decreases n - j,
            {
                if self.fields[i].name == self.fields[j].name {
                    assert(self@.fields[i as int].name == self@.fields[j as int].name);
                    return false;
                }
                j += 1;
            }
            match &self.fields[i].value {
                Value::Object(inner) => {
                    if !inner.is_addressable() {
                        assert(self@.fields[i as int].value matches ValueView::Object(o)
                            && !o.addressable());
                        return false;
                    }
                },
                Value::Primitive(_) => {},
            }
            i += 1;
        }
        true
    }
}

} // verus!
