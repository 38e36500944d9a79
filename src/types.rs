//! The type model: primitive types, type kinds and optional type references.

use vstd::prelude::*;

use crate::registry::{NamedType, Registry};

verus! {

/// The primitive types of WebIDL, named after their host equivalents.
#[derive(Debug, Clone, Copy, PartialEq, Eq, Structural)]
pub enum Primitive {
    Bool,
    I8,
    U8,
    I16,
    U16,
    I32,
    U32,
    I64,
    U64,
    F32,
    F64,
}

impl Primitive {
    /// The host name of a primitive type.
    pub open spec fn spec_name(self) -> Seq<char> {
        match self {
            Primitive::Bool => "bool"@,
            Primitive::I8 => "i8"@,
            Primitive::U8 => "u8"@,
            Primitive::I16 => "i16"@,
            Primitive::U16 => "u16"@,
            Primitive::I32 => "i32"@,
            Primitive::U32 => "u32"@,
            Primitive::I64 => "i64"@,
            Primitive::U64 => "u64"@,
            Primitive::F32 => "f32"@,
            Primitive::F64 => "f64"@,
        }
    }

    /// Whether the primitive is a 64-bit integer, which the interop layer
    /// cannot carry losslessly.
    pub open spec fn is_wide(self) -> bool {
        self == Primitive::I64 || self == Primitive::U64
    }

    /// Get the host name for a primitive type.
    pub fn name(self) -> (r: &'static str)
        ensures
            r@ == self.spec_name(),
    {
        match self {
            Primitive::Bool => "bool",
            Primitive::I8 => "i8",
            Primitive::U8 => "u8",
            Primitive::I16 => "i16",
            Primitive::U16 => "u16",
            Primitive::I32 => "i32",
            Primitive::U32 => "u32",
            Primitive::I64 => "i64",
            Primitive::U64 => "u64",
            Primitive::F32 => "f32",
            Primitive::F64 => "f64",
        }
    }
}

} // verus!

verus! {

/// A reference to a type, with its optional flag.
#[derive(Debug, PartialEq, Eq)]
pub struct Type {
    pub kind: TypeKind,
    /// Optional types are the default in WebIDL, so the flag has a place of
    /// its own; it is "squashed" rather than nested.
    pub optional: bool,
}

/// The definition of a type.
#[derive(Debug, PartialEq, Eq)]
pub enum TypeKind {
    Primitive(Primitive),
    String,
    ArrayBuffer,
    ArrayBufferView,
    BufferSource,
    CanvasElement,
    TypedArray(Primitive),
    Sequence(Box<Type>),
    Union(Vec<Type>),
    Named(String),
    Any,
    Object,
}

/// The mathematical model of a type reference.
pub struct TypeM {
    pub kind: KindM,
    pub optional: bool,
}

/// The mathematical model of a type kind: names become character sequences
/// and unions become sequences of models.
pub enum KindM {
    Primitive(Primitive),
    String,
    ArrayBuffer,
    ArrayBufferView,
    BufferSource,
    CanvasElement,
    TypedArray(Primitive),
    Sequence(Box<TypeM>),
    Union(Seq<TypeM>),
    Named(Seq<char>),
    Any,
    Object,
}

/// Model of a type reference.
pub open spec fn type_model(t: Type) -> TypeM
    decreases t,
{
    TypeM { kind: kind_model(t.kind), optional: t.optional }
}

/// Model of a type kind.
pub open spec fn kind_model(k: TypeKind) -> KindM
    decreases k,
{
    match k {
        TypeKind::Primitive(p) => KindM::Primitive(p),
        TypeKind::String => KindM::String,
        TypeKind::ArrayBuffer => KindM::ArrayBuffer,
        TypeKind::ArrayBufferView => KindM::ArrayBufferView,
        TypeKind::BufferSource => KindM::BufferSource,
        TypeKind::CanvasElement => KindM::CanvasElement,
        TypeKind::TypedArray(p) => KindM::TypedArray(p),
        TypeKind::Sequence(b) => KindM::Sequence(Box::new(type_model(*b))),
        TypeKind::Union(v) => KindM::Union(
            Seq::new(
                v@.len(),
                |i: int|
                    if 0 <= i < v@.len() {
                        type_model(v@[i])
                    } else {
                        TypeM { kind: KindM::Any, optional: false }
                    },
            ),
        ),
        TypeKind::Named(s) => KindM::Named(s@),
        TypeKind::Any => KindM::Any,
        TypeKind::Object => KindM::Object,
    }
}

impl View for Type {
    type V = TypeM;

    open spec fn view(&self) -> TypeM {
        type_model(*self)
    }
}

impl View for TypeKind {
    type V = KindM;

    open spec fn view(&self) -> KindM {
        kind_model(*self)
    }
}

impl Clone for Type {
    fn clone(&self) -> (r: Self)
        ensures
            r@ == self@,
        decreases self,
    {
        Type { kind: self.kind.clone(), optional: self.optional }
    }
}

impl Clone for TypeKind {
    fn clone(&self) -> (r: Self)
        ensures
            r@ == self@,
        decreases self,
    {
        match self {
            TypeKind::Primitive(p) => TypeKind::Primitive(*p),
            TypeKind::String => TypeKind::String,
            TypeKind::ArrayBuffer => TypeKind::ArrayBuffer,
            TypeKind::ArrayBufferView => TypeKind::ArrayBufferView,
            TypeKind::BufferSource => TypeKind::BufferSource,
            TypeKind::CanvasElement => TypeKind::CanvasElement,
            TypeKind::TypedArray(p) => TypeKind::TypedArray(*p),
            TypeKind::Sequence(b) => {
                let inner: &Type = b;
                TypeKind::Sequence(Box::new(inner.clone()))
            },
            TypeKind::Union(ts) => {
                let mut out: Vec<Type> = Vec::new();
                let mut i: usize = 0;
                while i < ts.len()
                    invariant
                        *self == TypeKind::Union(*ts),
                        i <= ts@.len(),
                        out@.len() == i,
                        forall|j: int| 0 <= j < i ==> #[trigger] out@[j]@ == ts@[j]@,
                    decreases ts@.len() - i,
                {
                    proof {
                        let ghost v = self->Union_0;
                        assert(decreases_to!(v => v[i as int]));
                        assert(decreases_to!(*self => v[i as int]));
                    }
                    out.push(ts[i].clone());
                    i = i + 1;
                }
                let r = TypeKind::Union(out);
                assert(r@ == self@) by {
                    if let KindM::Union(a) = r@ {
                        if let KindM::Union(b) = self@ {
                            assert forall|j: int| 0 <= j < a.len() implies a[j] == b[j] by {
                                assert(out@[j]@ == ts@[j]@);
                            }
                            assert(a =~= b);
                        }
                    }
                }
                r
            },
            TypeKind::Named(s) => TypeKind::Named(s.clone()),
            TypeKind::Any => TypeKind::Any,
            TypeKind::Object => TypeKind::Object,
        }
    }
}

impl TypeM {
    /// The optional view of a type reference: same kind, optional flag set.
    pub open spec fn made_optional(self) -> TypeM {
        TypeM { kind: self.kind, optional: true }
    }
}

impl Type {
    /// Return an optional version of this type reference.
    /// Returns an identical copy if the type is already optional.
    pub fn optional(&self) -> (r: Self)
        ensures
            r@ == self@.made_optional(),
    {
        Type { kind: self.kind.clone(), optional: true }
    }
}

/// Making an already-optional type optional gives back the same type.
pub proof fn lemma_optional_idempotent(t: TypeM)
    requires
        t.optional,
    ensures
        t.made_optional() == t,
{
}

/// Making a type optional twice is the same as making it optional once.
pub proof fn lemma_optional_twice(t: TypeM)
    ensures
        t.made_optional().made_optional() == t.made_optional(),
{
}

impl<'a> From<&'a str> for Type {
    /// Construct a non-optional reference to a named type.
    fn from(s: &'a str) -> (r: Type)
        ensures
            r@ == (TypeM { kind: KindM::Named(s@), optional: false }),
    {
        Type { kind: TypeKind::Named(String::from_str(s)), optional: false }
    }
}

impl<'a> vstd::std_specs::convert::FromSpecImpl<&'a str> for Type {
    open spec fn obeys_from_spec() -> bool {
        false
    }

    open spec fn from_spec(v: &'a str) -> Type {
        Type { kind: TypeKind::Any, optional: false }
    }
}

/// Flattening of `k` through at most `fuel` transparent aliases: a named
/// type that resolves to a non-optional typedef stands for the kind it
/// aliases; anything else stands for itself. `None` when the fuel runs out.
pub open spec fn flat_fuel(reg: Registry, k: TypeKind, fuel: nat) -> Option<TypeKind>
    decreases fuel,
{
    match k {
        TypeKind::Named(s) => match reg.lookup(s@) {
            Some(NamedType::Typedef(t)) => if t.optional {
                Some(k)
            } else if fuel == 0 {
                None
            } else {
                flat_fuel(reg, t.kind, (fuel - 1) as nat)
            },
            _ => Some(k),
        },
        _ => Some(k),
    }
}

/// Whether the alias chain from `k` ends.
pub open spec fn flattens(reg: Registry, k: TypeKind) -> bool {
    exists|f: nat| #[trigger] flat_fuel(reg, k, f) is Some
}

/// The concrete kind that `k` stands for once transparent aliases are seen through.
pub open spec fn flat_kind(reg: Registry, k: TypeKind) -> TypeKind {
    flat_fuel(reg, k, choose|f: nat| #[trigger] flat_fuel(reg, k, f) is Some).unwrap()
}

/// The display name of a kind: a primitive's host name, or a named type's name.
pub open spec fn display_name(k: TypeKind) -> Option<Seq<char>> {
    match k {
        TypeKind::Primitive(p) => Some(p.spec_name()),
        TypeKind::Named(s) => Some(s@),
        _ => None,
    }
}

/// More fuel than needed does not change the flattening.
pub proof fn lemma_flat_fuel_mono(reg: Registry, k: TypeKind, f1: nat, f2: nat)
    requires
        flat_fuel(reg, k, f1) is Some,
        f1 <= f2,
    ensures
        flat_fuel(reg, k, f2) == flat_fuel(reg, k, f1),
    decreases f1,
{
    if let TypeKind::Named(s) = k {
        if let Some(NamedType::Typedef(t)) = reg.lookup(s@) {
            if !t.optional {
                lemma_flat_fuel_mono(reg, t.kind, (f1 - 1) as nat, (f2 - 1) as nat);
            }
        }
    }
}

/// Any fuel that suffices gives the flattening.
pub proof fn lemma_flat_kind_from_fuel(reg: Registry, k: TypeKind, f: nat)
    requires
        flat_fuel(reg, k, f) is Some,
    ensures
        flattens(reg, k),
        flat_kind(reg, k) == flat_fuel(reg, k, f).unwrap(),
{
    let g = choose|g: nat| #[trigger] flat_fuel(reg, k, g) is Some;
    if g <= f {
        lemma_flat_fuel_mono(reg, k, g, f);
    } else {
        lemma_flat_fuel_mono(reg, k, f, g);
    }
}

/// The result of flattening is never a transparent alias.
pub proof fn lemma_flat_fuel_result(reg: Registry, k: TypeKind, f: nat)
    requires
        flat_fuel(reg, k, f) is Some,
    ensures
        flat_fuel(reg, flat_fuel(reg, k, f).unwrap(), 0) == flat_fuel(reg, k, f),
    decreases f,
{
    if let TypeKind::Named(s) = k {
        if let Some(NamedType::Typedef(t)) = reg.lookup(s@) {
            if !t.optional {
                lemma_flat_fuel_result(reg, t.kind, (f - 1) as nat);
            }
        }
    }
}

/// Flattening is idempotent: flattening the flattened kind gives it back.
pub proof fn lemma_flatten_idempotent(reg: Registry, k: TypeKind)
    requires
        flattens(reg, k),
    ensures
        flattens(reg, flat_kind(reg, k)),
        flat_kind(reg, flat_kind(reg, k)) == flat_kind(reg, k),
{
    let f = choose|f: nat| #[trigger] flat_fuel(reg, k, f) is Some;
    lemma_flat_fuel_result(reg, k, f);
    lemma_flat_kind_from_fuel(reg, flat_kind(reg, k), 0);
}

fn flatten_fuel<'a>(k: &'a TypeKind, registry: &'a Registry, Ghost(fuel): Ghost<nat>) -> (r: &'a TypeKind)
    requires
        flat_fuel(*registry, *k, fuel) is Some,
    ensures
        Some(*r) == flat_fuel(*registry, *k, fuel),
    decreases fuel,
{
    match k {
        TypeKind::Named(s) => match registry.resolve_type(s.as_str()) {
            Some(NamedType::Typedef(t)) => {
                if t.optional {
                    k
                } else {
                    flatten_fuel(&t.kind, registry, Ghost((fuel - 1) as nat))
                }
            },
            _ => k,
        },
        _ => k,
    }
}

impl TypeKind {
    /// Look through transparent aliases (non-optional typedefs) to the
    /// concrete definition of a kind; also returns its display name.
    /// A name that resolves to nothing stands for itself.
    pub fn flatten<'a>(&'a self, registry: &'a Registry) -> (r: (Option<&'a str>, &'a TypeKind))
        requires
            flattens(*registry, *self),
        ensures
            *r.1 == flat_kind(*registry, *self),
            match r.0 {
                Some(n) => display_name(*self) == Some(n@),
                None => display_name(*self) is None,
            },
    {
        let ghost f = choose|f: nat| #[trigger] flat_fuel(*registry, *self, f) is Some;
        proof {
            lemma_flat_kind_from_fuel(*registry, *self, f);
        }
        let flat = flatten_fuel(self, registry, Ghost(f));
        match self {
            TypeKind::Primitive(p) => (Some(p.name()), flat),
            TypeKind::Named(s) => (Some(s.as_str()), flat),
            _ => (None, flat),
        }
    }
}

} // verus!
