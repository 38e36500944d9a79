//! Marshalling resolution: the host type of a value and how it crosses the
//! boundary, for arguments (host to interface) and results (interface to host).

use vstd::prelude::*;

use crate::context::{ContextM, GenericContext};
use crate::registry::{
    arg_resolves, fields_resolve, fields_spec, members_resolve, members_spec, res_resolves, NamedType,
    Registry,
};
use crate::types::{display_name, flat_fuel, flat_kind, flattens, lemma_flat_kind_from_fuel, Primitive, Type, TypeKind};

verus! {

/// A fatal configuration error: a registry shape that cannot be generated.
#[derive(Debug, Clone, Copy, PartialEq, Eq, Structural)]
pub enum GenError {
    /// A name that nothing is registered under.
    UnresolvedName,
    /// A mixin used as a type.
    MixinAsType,
    /// A union other than one typed array with sequences beside it.
    UnsupportedUnion,
    /// A result asked for of a kind that only exists as input.
    InputOnlyResult,
    /// A dictionary or interface that inherits from a type of another kind.
    InheritsOtherKind,
    /// A constant or attribute given more than once under one name.
    OverloadedMember,
}

/// How an argument is converted at the call boundary.
#[derive(Debug)]
pub enum ArgWrapper {
    Direct,
    AsTypedArray,
    AsArrayBufferView,
    Optional(Box<ArgWrapper>),
    Sequence(Box<ArgWrapper>),
    DoubleCast,
    Once,
}

/// A resolved argument: host type, conversion, and whether it is optional.
#[derive(Debug)]
pub struct ProcessedArg {
    pub type_: String,
    pub wrapper: ArgWrapper,
    pub optional: bool,
}

/// The model of a resolved argument.
pub struct ArgM {
    pub type_: Seq<char>,
    pub wrapper: ArgWrapper,
    pub optional: bool,
}

impl View for ProcessedArg {
    type V = ArgM;

    open spec fn view(&self) -> ArgM {
        ArgM { type_: self.type_@, wrapper: self.wrapper, optional: self.optional }
    }
}

/// How a result is converted at the call boundary: strictly (a failure is a
/// bug) or leniently (a failure is an absent value).
#[derive(Debug, Clone, Copy, PartialEq, Eq, Structural)]
pub enum ResultWrapper {
    Strict,
    Lenient,
}

/// A resolved result: host type, conversion, and whether it is optional.
#[derive(Debug)]
pub struct ProcessedResult {
    pub type_: String,
    pub wrapper: ResultWrapper,
    pub optional: bool,
}

/// The model of a resolved result.
pub struct ResM {
    pub type_: Seq<char>,
    pub wrapper: ResultWrapper,
    pub optional: bool,
}

impl View for ProcessedResult {
    type V = ResM;

    open spec fn view(&self) -> ResM {
        ResM { type_: self.type_@, wrapper: self.wrapper, optional: self.optional }
    }
}

/// The outcome of a resolution within a bound on its depth.
pub enum Resolved<T> {
    Done(T),
    Fatal(GenError),
    OutOfFuel,
}

/// Whether `i` is the typed array of a supported union: the one variant that
/// is a typed array, all others being sequences.
pub open spec fn union_choice_at(ts: Seq<Type>, i: int) -> bool {
    &&& 0 <= i < ts.len()
    &&& ts[i].kind is TypedArray
    &&& forall|j: int| 0 <= j < ts.len() && j != i ==> (#[trigger] ts[j]).kind is Sequence
}

/// The variant a union is marshalled as, if its shape is supported.
pub open spec fn union_choice(ts: Seq<Type>) -> Option<Type> {
    if exists|i: int| union_choice_at(ts, i) {
        Some(ts[choose|i: int| union_choice_at(ts, i)])
    } else {
        None
    }
}

/// A plain argument: no conversion, not optional.
pub open spec fn simple_arg(t: Seq<char>) -> ArgM {
    ArgM { type_: t, wrapper: ArgWrapper::Direct, optional: false }
}

/// A plain result: strict conversion, not optional.
pub open spec fn simple_res(t: Seq<char>) -> ResM {
    ResM { type_: t, wrapper: ResultWrapper::Strict, optional: false }
}

/// The conversion of a sequence whose elements convert by `w`.
pub open spec fn sequence_wrapper(w: ArgWrapper) -> ArgWrapper {
    match w {
        ArgWrapper::Direct => ArgWrapper::Direct,
        _ => ArgWrapper::Sequence(Box::new(w)),
    }
}

/// An argument made optional, unless it already is.
pub open spec fn optional_arg(a: ArgM, optional: bool) -> ArgM {
    if optional && !a.optional {
        ArgM {
            type_: "Option<"@ + a.type_ + ">"@,
            wrapper: match a.wrapper {
                ArgWrapper::Direct => ArgWrapper::Direct,
                _ => ArgWrapper::Optional(Box::new(a.wrapper)),
            },
            optional: true,
        }
    } else {
        a
    }
}

/// A result made optional, unless it already is.
pub open spec fn optional_res(a: ResM, optional: bool) -> ResM {
    if optional && !a.optional {
        ResM { type_: "Option<"@ + a.type_ + ">"@, wrapper: ResultWrapper::Lenient, optional: true }
    } else {
        a
    }
}

/// A fresh generic parameter `T` with one constraint, no conversion.
pub open spec fn generic_arg(
    g: ContextM,
    pref: Seq<char>,
    bound: Seq<char>,
    w: ArgWrapper,
) -> Resolved<(ArgM, ContextM)> {
    let (gp, g1) = g.allocate(pref);
    Resolved::Done((ArgM { type_: gp, wrapper: w, optional: false }, g1.constrain(gp + bound)))
}

/// A fresh lifetime and type parameter for a borrowed view of memory.
pub open spec fn view_arg(
    g: ContextM,
    bound_head: Seq<char>,
    bound_tail: Seq<char>,
    w: ArgWrapper,
) -> Resolved<(ArgM, ContextM)> {
    let (lt, g1) = g.allocate("'a"@);
    let (gp, g2) = g1.allocate("T"@);
    Resolved::Done(
        (
            ArgM { type_: gp, wrapper: w, optional: false },
            g2.constrain(gp + bound_head + lt + bound_tail),
        ),
    )
}

/// Argument resolution of a type reference, within `fuel` levels.
pub open spec fn arg_type_spec(reg: Registry, t: Type, g: ContextM, fuel: nat) -> Resolved<
    (ArgM, ContextM),
>
    decreases fuel, 1nat,
{
    match arg_kind_spec(reg, t.kind, g, fuel) {
        Resolved::Done((a, g1)) => Resolved::Done((optional_arg(a, t.optional), g1)),
        Resolved::Fatal(e) => Resolved::Fatal(e),
        Resolved::OutOfFuel => Resolved::OutOfFuel,
    }
}

/// Argument resolution of a type kind, within `fuel` levels.
pub open spec fn arg_kind_spec(reg: Registry, k: TypeKind, g: ContextM, fuel: nat) -> Resolved<
    (ArgM, ContextM),
>
    decreases fuel, 0nat,
{
    if fuel == 0 {
        Resolved::OutOfFuel
    } else {
        let name = display_name(k).unwrap();
        match flat_kind(reg, k) {
            TypeKind::Primitive(p) => Resolved::Done(
                (
                    ArgM {
                        type_: name,
                        wrapper: if p.is_wide() {
                            ArgWrapper::DoubleCast
                        } else {
                            ArgWrapper::Direct
                        },
                        optional: false,
                    },
                    g,
                ),
            ),
            TypeKind::String => Resolved::Done((simple_arg("&str"@), g)),
            TypeKind::ArrayBuffer => Resolved::Done((simple_arg("&ArrayBuffer"@), g)),
            TypeKind::BufferSource => Resolved::Done((simple_arg("&ArrayBuffer"@), g)),
            TypeKind::CanvasElement => Resolved::Done((simple_arg("&CanvasElement"@), g)),
            TypeKind::TypedArray(p) => view_arg(
                g,
                ": AsTypedArray<"@,
                ", "@ + p.spec_name() + ">"@,
                ArgWrapper::AsTypedArray,
            ),
            TypeKind::ArrayBufferView => view_arg(
                g,
                ": AsArrayBufferView<"@,
                ">"@,
                ArgWrapper::AsArrayBufferView,
            ),
            TypeKind::Sequence(b) => match arg_type_spec(reg, *b, g, (fuel - 1) as nat) {
                Resolved::Done((a, g1)) => Resolved::Done(
                    (
                        ArgM {
                            type_: "&["@ + a.type_ + "]"@,
                            wrapper: sequence_wrapper(a.wrapper),
                            optional: false,
                        },
                        g1,
                    ),
                ),
                other => other,
            },
            TypeKind::Union(ts) => match union_choice(ts@) {
                Some(t) => arg_type_spec(reg, t, g, (fuel - 1) as nat),
                None => Resolved::Fatal(GenError::UnsupportedUnion),
            },
            TypeKind::Named(actual) => match reg.lookup(actual@) {
                None => Resolved::Fatal(GenError::UnresolvedName),
                Some(NamedType::Dictionary(_)) => Resolved::Done((simple_arg("&"@ + name), g)),
                Some(NamedType::Interface(_)) => Resolved::Done((simple_arg("&"@ + name), g)),
                Some(NamedType::Enum(_)) => Resolved::Done((simple_arg(name), g)),
                Some(NamedType::Typedef(t)) => arg_type_spec(reg, t, g, (fuel - 1) as nat),
                Some(NamedType::Callback(_)) => generic_arg(
                    g,
                    "F"@,
                    ": FnOnce() + 'static"@,
                    ArgWrapper::Once,
                ),
                Some(NamedType::Mixin(_)) => Resolved::Fatal(GenError::MixinAsType),
            },
            _ => generic_arg(g, "T"@, ": JsSerialize"@, ArgWrapper::Direct),
        }
    }
}

/// Result resolution of a type reference, within `fuel` levels.
pub open spec fn res_type_spec(reg: Registry, t: Type, fuel: nat) -> Resolved<ResM>
    decreases fuel, 1nat,
{
    match res_kind_spec(reg, t.kind, fuel) {
        Resolved::Done(a) => Resolved::Done(optional_res(a, t.optional)),
        Resolved::Fatal(e) => Resolved::Fatal(e),
        Resolved::OutOfFuel => Resolved::OutOfFuel,
    }
}

/// Result resolution of a type kind, within `fuel` levels. Aliases are kept
/// by name: a typedef forwards the conversion of what it aliases.
pub open spec fn res_kind_spec(reg: Registry, k: TypeKind, fuel: nat) -> Resolved<ResM>
    decreases fuel, 0nat,
{
    if fuel == 0 {
        Resolved::OutOfFuel
    } else {
        match k {
            TypeKind::Primitive(p) => Resolved::Done(simple_res(p.spec_name())),
            TypeKind::String => Resolved::Done(simple_res("String"@)),
            TypeKind::ArrayBuffer => Resolved::Done(simple_res("ArrayBuffer"@)),
            TypeKind::ArrayBufferView => Resolved::Done(simple_res("ArrayBuffer"@)),
            TypeKind::BufferSource => Resolved::Fatal(GenError::InputOnlyResult),
            TypeKind::CanvasElement => Resolved::Done(simple_res("CanvasElement"@)),
            TypeKind::TypedArray(p) => Resolved::Done(
                simple_res("TypedArray<"@ + p.spec_name() + ">"@),
            ),
            TypeKind::Sequence(b) => match res_type_spec(reg, *b, (fuel - 1) as nat) {
                Resolved::Done(a) => Resolved::Done(simple_res("Vec<"@ + a.type_ + ">"@)),
                other => other,
            },
            TypeKind::Union(ts) => match union_choice(ts@) {
                Some(t) => res_type_spec(reg, t, (fuel - 1) as nat),
                None => Resolved::Fatal(GenError::UnsupportedUnion),
            },
            TypeKind::Named(n) => match reg.lookup(n@) {
                None => Resolved::Fatal(GenError::UnresolvedName),
                Some(NamedType::Dictionary(_)) => Resolved::Done(simple_res(n@)),
                Some(NamedType::Interface(_)) => Resolved::Done(simple_res(n@)),
                Some(NamedType::Enum(_)) => Resolved::Done(simple_res(n@)),
                Some(NamedType::Typedef(t)) => match res_type_spec(reg, t, (fuel - 1) as nat) {
                    Resolved::Done(a) => Resolved::Done(
                        ResM { type_: n@, wrapper: a.wrapper, optional: a.optional },
                    ),
                    other => other,
                },
                Some(NamedType::Callback(_)) => Resolved::Fatal(GenError::InputOnlyResult),
                Some(NamedType::Mixin(_)) => Resolved::Fatal(GenError::MixinAsType),
            },
            _ => Resolved::Done(simple_res("Value"@)),
        }
    }
}

/// Whether a resolved argument agrees with a resolution outcome, given the
/// context after it.
pub open spec fn arg_agrees(r: Result<ProcessedArg, GenError>, o: Resolved<(ArgM, ContextM)>, g: ContextM) -> bool {
    match r {
        Ok(a) => o == Resolved::Done((a@, g)),
        Err(e) => o == Resolved::<(ArgM, ContextM)>::Fatal(e),
    }
}

/// Whether a resolved result agrees with a resolution outcome.
pub open spec fn res_agrees(r: Result<ProcessedResult, GenError>, o: Resolved<ResM>) -> bool {
    match r {
        Ok(a) => o == Resolved::Done(a@),
        Err(e) => o == Resolved::<ResM>::Fatal(e),
    }
}

/// The outcome of argument resolution of `t` from context `g`.
pub open spec fn arg_outcome(reg: Registry, t: Type, g: ContextM) -> Resolved<(ArgM, ContextM)> {
    arg_type_spec(reg, t, g, choose|f: nat| !(#[trigger] arg_type_spec(reg, t, g, f) is OutOfFuel))
}

/// The outcome of result resolution of `t`.
pub open spec fn res_outcome(reg: Registry, t: Type) -> Resolved<ResM> {
    res_type_spec(reg, t, choose|f: nat| !(#[trigger] res_type_spec(reg, t, f) is OutOfFuel))
}

/// A kind without a display name is its own flattening.
proof fn lemma_flat_unnamed(reg: Registry, k: TypeKind)
    requires
        display_name(k) is None,
    ensures
        flat_kind(reg, k) == k,
{
    lemma_flat_kind_from_fuel(reg, k, 0);
}

/// Pick the typed array of a supported union.
fn pick_union(ts: &Vec<Type>) -> (r: Option<&Type>)
    ensures
        match r {
            Some(t) => union_choice(ts@) == Some(*t),
            None => union_choice(ts@) is None,
        },
{
    let mut found: Option<usize> = None;
    let mut i: usize = 0;
    while i < ts.len()
        invariant
            i <= ts@.len(),
            forall|j: int| 0 <= j < i && Some(j as usize) != found ==> (#[trigger] ts@[j]).kind is Sequence,
            match found {
                Some(x) => x < i && ts@[x as int].kind is TypedArray,
                None => true,
            },
        decreases ts@.len() - i,
    {
        match &ts[i].kind {
            TypeKind::TypedArray(_) => {
                if found.is_some() {
                    proof {
                        let x = found.unwrap() as int;
                        assert forall|c: int| !union_choice_at(ts@, c) by {
                            if union_choice_at(ts@, c) {
                                if c != x {
                                    assert(ts@[x].kind is Sequence);
                                } else {
                                    assert(ts@[i as int].kind is Sequence);
                                }
                            }
                        }
                    }
                    return None;
                }
                found = Some(i);
            },
            TypeKind::Sequence(_) => {},
            _ => {
                proof {
                    assert forall|c: int| !union_choice_at(ts@, c) by {
                        if union_choice_at(ts@, c) {
                            assert(c != i);
                        }
                    }
                }
                return None;
            },
        }
        i = i + 1;
    }
    match found {
        Some(x) => {
            proof {
                assert(union_choice_at(ts@, x as int));
                let c = choose|c: int| union_choice_at(ts@, c);
                if c != x {
                    assert(ts@[x as int].kind is Sequence);
                }
            }
            Some(&ts[x])
        },
        None => {
            proof {
                assert forall|c: int| !union_choice_at(ts@, c) by {
                    if union_choice_at(ts@, c) {
                        assert(ts@[c].kind is Sequence);
                    }
                }
            }
            None
        },
    }
}

fn simple_arg_of(t: String) -> (r: ProcessedArg)
    ensures
        r@ == simple_arg(t@),
{
    ProcessedArg { type_: t, wrapper: ArgWrapper::Direct, optional: false }
}

fn simple_res_of(t: String) -> (r: ProcessedResult)
    ensures
        r@ == simple_res(t@),
{
    ProcessedResult { type_: t, wrapper: ResultWrapper::Strict, optional: false }
}

/// A fresh lifetime and type parameter bound by `head`, the lifetime and `tail`.
fn view_arg_of(gc: &mut GenericContext, head: &str, tail: String, w: ArgWrapper) -> (r: ProcessedArg)
    ensures
        view_arg(old(gc)@, head@, tail@, w) == Resolved::Done((r@, final(gc)@)),
{
    let lt = gc.arg("'a");
    let gp = gc.arg("T");
    let c = gp.clone().concat(head).concat(lt.as_str()).concat(tail.as_str());
    assert(c@ =~= gp@ + head@ + lt@ + tail@);
    gc.constrain(c);
    ProcessedArg { type_: gp, wrapper: w, optional: false }
}

/// A fresh type parameter with one bound.
fn generic_arg_of(gc: &mut GenericContext, pref: &str, bound: &str, w: ArgWrapper) -> (r: ProcessedArg)
    ensures
        generic_arg(old(gc)@, pref@, bound@, w) == Resolved::Done((r@, final(gc)@)),
{
    let gp = gc.arg(pref);
    let c = gp.clone().concat(bound);
    gc.constrain(c);
    ProcessedArg { type_: gp, wrapper: w, optional: false }
}

fn process_arg_type_kind(
    type_kind: &TypeKind,
    registry: &Registry,
    gc: &mut GenericContext,
    Ghost(fuel): Ghost<nat>,
) -> (r: Result<ProcessedArg, GenError>)
    requires
        registry.wf(),
        !(arg_kind_spec(*registry, *type_kind, old(gc)@, fuel) is OutOfFuel),
    ensures
        arg_agrees(r, arg_kind_spec(*registry, *type_kind, old(gc)@, fuel), final(gc)@),
    decreases fuel, 0nat,
{
    assert(flattens(*registry, *type_kind));
    let (name, flat) = type_kind.flatten(registry);
    proof {
        if display_name(*type_kind) is None {
            lemma_flat_unnamed(*registry, *type_kind);
        }
    }
    match flat {
        TypeKind::Primitive(p) => {
            let n = String::from_str(name.unwrap());
            let wrapper = match p {
                Primitive::I64 => ArgWrapper::DoubleCast,
                Primitive::U64 => ArgWrapper::DoubleCast,
                _ => ArgWrapper::Direct,
            };
            Ok(ProcessedArg { type_: n, wrapper, optional: false })
        },
        TypeKind::String => Ok(simple_arg_of(String::from_str("&str"))),
        TypeKind::ArrayBuffer => Ok(simple_arg_of(String::from_str("&ArrayBuffer"))),
        TypeKind::BufferSource => Ok(simple_arg_of(String::from_str("&ArrayBuffer"))),
        TypeKind::CanvasElement => Ok(simple_arg_of(String::from_str("&CanvasElement"))),
        TypeKind::TypedArray(p) => {
            let tail = String::from_str(", ").concat(p.name()).concat(">");
            Ok(view_arg_of(gc, ": AsTypedArray<", tail, ArgWrapper::AsTypedArray))
        },
        TypeKind::ArrayBufferView => {
            let tail = String::from_str(">");
            Ok(view_arg_of(gc, ": AsArrayBufferView<", tail, ArgWrapper::AsArrayBufferView))
        },
        TypeKind::Sequence(t) => {
            match process_arg_type_fuel(t, registry, gc, Ghost((fuel - 1) as nat)) {
                Ok(inner) => {
                    let ProcessedArg { type_, wrapper, optional } = inner;
                    let wrapper = match wrapper {
                        ArgWrapper::Direct => ArgWrapper::Direct,
                        other => ArgWrapper::Sequence(Box::new(other)),
                    };
                    let text = String::from_str("&[").concat(type_.as_str()).concat("]");
                    Ok(ProcessedArg { type_: text, wrapper, optional: false })
                },
                Err(e) => Err(e),
            }
        },
        TypeKind::Union(ts) => match pick_union(ts) {
            Some(t) => process_arg_type_fuel(t, registry, gc, Ghost((fuel - 1) as nat)),
            None => Err(GenError::UnsupportedUnion),
        },
        TypeKind::Named(actual_name) => match registry.resolve_type(actual_name.as_str()) {
            None => Err(GenError::UnresolvedName),
            Some(NamedType::Dictionary(_)) => Ok(
                simple_arg_of(String::from_str("&").concat(name.unwrap())),
            ),
            Some(NamedType::Interface(_)) => Ok(
                simple_arg_of(String::from_str("&").concat(name.unwrap())),
            ),
            Some(NamedType::Enum(_)) => Ok(simple_arg_of(String::from_str(name.unwrap()))),
            Some(NamedType::Typedef(t)) => {
                process_arg_type_fuel(t, registry, gc, Ghost((fuel - 1) as nat))
            },
            Some(NamedType::Callback(_)) => Ok(
                generic_arg_of(gc, "F", ": FnOnce() + 'static", ArgWrapper::Once),
            ),
            Some(NamedType::Mixin(_)) => Err(GenError::MixinAsType),
        },
        TypeKind::Any => Ok(generic_arg_of(gc, "T", ": JsSerialize", ArgWrapper::Direct)),
        TypeKind::Object => Ok(generic_arg_of(gc, "T", ": JsSerialize", ArgWrapper::Direct)),
    }
}

fn process_arg_type_fuel(
    type_: &Type,
    registry: &Registry,
    gc: &mut GenericContext,
    Ghost(fuel): Ghost<nat>,
) -> (r: Result<ProcessedArg, GenError>)
    requires
        registry.wf(),
        !(arg_type_spec(*registry, *type_, old(gc)@, fuel) is OutOfFuel),
    ensures
        arg_agrees(r, arg_type_spec(*registry, *type_, old(gc)@, fuel), final(gc)@),
    decreases fuel, 1nat,
{
    match process_arg_type_kind(&type_.kind, registry, gc, Ghost(fuel)) {
        Ok(result) => {
            if type_.optional && !result.optional {
                let ProcessedArg { type_: text, wrapper, optional } = result;
                let wrapper = match wrapper {
                    ArgWrapper::Direct => ArgWrapper::Direct,
                    other => ArgWrapper::Optional(Box::new(other)),
                };
                let text = String::from_str("Option<").concat(text.as_str()).concat(">");
                Ok(ProcessedArg { type_: text, wrapper, optional: true })
            } else {
                Ok(result)
            }
        },
        Err(e) => Err(e),
    }
}

/// Resolve the host type and conversion of an argument of type `type_`,
/// allocating in `gc` the generic parameters and constraints it needs.
/// A fatal configuration error where the registry cannot express it.
pub fn process_arg_type(type_: &Type, registry: &Registry, gc: &mut GenericContext) -> (r: Result<
    ProcessedArg,
    GenError,
>)
    requires
        registry.wf(),
    ensures
        arg_agrees(r, arg_outcome(*registry, *type_, old(gc)@), final(gc)@),
{
    assert(arg_resolves(*registry, *type_, gc@));
    let ghost f = choose|f: nat| !(#[trigger] arg_type_spec(*registry, *type_, gc@, f) is OutOfFuel);
    process_arg_type_fuel(type_, registry, gc, Ghost(f))
}

fn process_result_type_kind(type_kind: &TypeKind, registry: &Registry, Ghost(fuel): Ghost<nat>) -> (r:
    Result<ProcessedResult, GenError>)
    requires
        registry.wf(),
        !(res_kind_spec(*registry, *type_kind, fuel) is OutOfFuel),
    ensures
        res_agrees(r, res_kind_spec(*registry, *type_kind, fuel)),
    decreases fuel, 0nat,
{
    match type_kind {
        TypeKind::Primitive(p) => Ok(simple_res_of(String::from_str(p.name()))),
        TypeKind::String => Ok(simple_res_of(String::from_str("String"))),
        TypeKind::ArrayBuffer => Ok(simple_res_of(String::from_str("ArrayBuffer"))),
        TypeKind::ArrayBufferView => Ok(simple_res_of(String::from_str("ArrayBuffer"))),
        TypeKind::BufferSource => Err(GenError::InputOnlyResult),
        TypeKind::CanvasElement => Ok(simple_res_of(String::from_str("CanvasElement"))),
        TypeKind::TypedArray(p) => Ok(
            simple_res_of(String::from_str("TypedArray<").concat(p.name()).concat(">")),
        ),
        TypeKind::Sequence(t) => match process_result_type_fuel(t, registry, Ghost((fuel - 1) as nat)) {
            Ok(inner) => Ok(
                simple_res_of(String::from_str("Vec<").concat(inner.type_.as_str()).concat(">")),
            ),
            Err(e) => Err(e),
        },
        TypeKind::Union(ts) => match pick_union(ts) {
            Some(t) => process_result_type_fuel(t, registry, Ghost((fuel - 1) as nat)),
            None => Err(GenError::UnsupportedUnion),
        },
        TypeKind::Named(name) => match registry.resolve_type(name.as_str()) {
            None => Err(GenError::UnresolvedName),
            Some(NamedType::Dictionary(_)) => Ok(simple_res_of(name.clone())),
            Some(NamedType::Interface(_)) => Ok(simple_res_of(name.clone())),
            Some(NamedType::Enum(_)) => Ok(simple_res_of(name.clone())),
            Some(NamedType::Typedef(t)) => match process_result_type_fuel(
                t,
                registry,
                Ghost((fuel - 1) as nat),
            ) {
                Ok(inner) => Ok(
                    ProcessedResult {
                        type_: name.clone(),
                        wrapper: inner.wrapper,
                        optional: inner.optional,
                    },
                ),
                Err(e) => Err(e),
            },
            Some(NamedType::Callback(_)) => Err(GenError::InputOnlyResult),
            Some(NamedType::Mixin(_)) => Err(GenError::MixinAsType),
        },
        TypeKind::Any => Ok(simple_res_of(String::from_str("Value"))),
        TypeKind::Object => Ok(simple_res_of(String::from_str("Value"))),
    }
}

fn process_result_type_fuel(type_: &Type, registry: &Registry, Ghost(fuel): Ghost<nat>) -> (r: Result<
    ProcessedResult,
    GenError,
>)
    requires
        registry.wf(),
        !(res_type_spec(*registry, *type_, fuel) is OutOfFuel),
    ensures
        res_agrees(r, res_type_spec(*registry, *type_, fuel)),
    decreases fuel, 1nat,
{
    match process_result_type_kind(&type_.kind, registry, Ghost(fuel)) {
        Ok(result) => {
            if type_.optional && !result.optional {
                let text = String::from_str("Option<").concat(result.type_.as_str()).concat(">");
                Ok(ProcessedResult { type_: text, wrapper: ResultWrapper::Lenient, optional: true })
            } else {
                Ok(result)
            }
        },
        Err(e) => Err(e),
    }
}

/// Resolve the host type and conversion of a result of type `type_`.
/// A fatal configuration error where the registry cannot express it.
pub fn process_result_type(type_: &Type, registry: &Registry) -> (r: Result<ProcessedResult, GenError>)
    requires
        registry.wf(),
    ensures
        res_agrees(r, res_outcome(*registry, *type_)),
{
    assert(res_resolves(*registry, *type_));
    let ghost f = choose|f: nat| !(#[trigger] res_type_spec(*registry, *type_, f) is OutOfFuel);
    process_result_type_fuel(type_, registry, Ghost(f))
}

/// The expression that converts the argument expression `a` by `w`.
pub open spec fn arg_wrap_text(w: ArgWrapper, a: Seq<char>) -> Seq<char>
    decreases w,
{
    match w {
        ArgWrapper::Direct => a,
        ArgWrapper::AsTypedArray => "unsafe { "@ + a + ".as_typed_array() }"@,
        ArgWrapper::AsArrayBufferView => "unsafe { "@ + a + ".as_array_buffer_view() }"@,
        ArgWrapper::Optional(inner) => a + ".map(|inner| "@ + arg_wrap_text(*inner, "inner"@)
            + ")"@,
        ArgWrapper::Sequence(inner) => a + ".iter().map(|inner| "@ + arg_wrap_text(
            *inner,
            "inner"@,
        ) + ").collect::<Vec<_>>()"@,
        ArgWrapper::DoubleCast => "("@ + a + " as f64)"@,
        ArgWrapper::Once => "Once("@ + a + ")"@,
    }
}

impl ArgWrapper {
    /// The expression that converts the argument expression `arg`.
    pub fn wrap(&self, arg: &str) -> (r: String)
        ensures
            r@ == arg_wrap_text(*self, arg@),
        decreases self,
    {
        match self {
            ArgWrapper::Direct => String::from_str(arg),
            ArgWrapper::AsTypedArray => String::from_str("unsafe { ").concat(arg).concat(
                ".as_typed_array() }",
            ),
            ArgWrapper::AsArrayBufferView => String::from_str("unsafe { ").concat(arg).concat(
                ".as_array_buffer_view() }",
            ),
            ArgWrapper::Optional(inner) => {
                let body = inner.wrap("inner");
                String::from_str(arg).concat(".map(|inner| ").concat(body.as_str()).concat(")")
            },
            ArgWrapper::Sequence(inner) => {
                let body = inner.wrap("inner");
                String::from_str(arg).concat(".iter().map(|inner| ").concat(body.as_str()).concat(
                    ").collect::<Vec<_>>()",
                )
            },
            ArgWrapper::DoubleCast => String::from_str("(").concat(arg).concat(" as f64)"),
            ArgWrapper::Once => String::from_str("Once(").concat(arg).concat(")"),
        }
    }
}

/// The expression that converts the result expression `c`.
pub open spec fn res_wrap_text(w: ResultWrapper, c: Seq<char>) -> Seq<char> {
    match w {
        ResultWrapper::Strict => c + ".try_into().unwrap()"@,
        ResultWrapper::Lenient => c + ".try_into().ok()"@,
    }
}

impl ResultWrapper {
    /// The expression that converts the result expression `content`.
    pub fn wrap(&self, content: &str) -> (r: String)
        ensures
            r@ == res_wrap_text(*self, content@),
    {
        match self {
            ResultWrapper::Strict => String::from_str(content).concat(".try_into().unwrap()"),
            ResultWrapper::Lenient => String::from_str(content).concat(".try_into().ok()"),
        }
    }
}

/// A sequence of a primitive element is borrowed as a slice of that
/// primitive; its conversion is the identity, except for the 64-bit integers,
/// which are widened element by element.
pub proof fn lemma_primitive_sequence_arg(reg: Registry, p: Primitive, g: ContextM)
    requires
        reg.wf(),
    ensures
        arg_outcome(
            reg,
            Type {
                kind: TypeKind::Sequence(Box::new(Type { kind: TypeKind::Primitive(p), optional: false })),
                optional: false,
            },
            g,
        ) == Resolved::Done(
            (
                ArgM {
                    type_: "&["@ + p.spec_name() + "]"@,
                    wrapper: if p.is_wide() {
                        ArgWrapper::Sequence(Box::new(ArgWrapper::DoubleCast))
                    } else {
                        ArgWrapper::Direct
                    },
                    optional: false,
                },
                g,
            ),
        ),
{
    let elem = Type { kind: TypeKind::Primitive(p), optional: false };
    let t = Type { kind: TypeKind::Sequence(Box::new(elem)), optional: false };
    assert(arg_resolves(reg, t, g));
    let f = choose|f: nat| !(#[trigger] arg_type_spec(reg, t, g, f) is OutOfFuel);
    lemma_flat_unnamed(reg, t.kind);
    lemma_flat_kind_from_fuel(reg, elem.kind, 0);
    assert(flat_fuel(reg, elem.kind, 0) == Some(elem.kind));
    assert(f > 0);
    let inner = arg_type_spec(reg, elem, g, (f - 1) as nat);
    assert(arg_kind_spec(reg, t.kind, g, f) == match inner {
        Resolved::Done((a, g1)) => Resolved::Done(
            (
                ArgM {
                    type_: "&["@ + a.type_ + "]"@,
                    wrapper: sequence_wrapper(a.wrapper),
                    optional: false,
                },
                g1,
            ),
        ),
        other => other,
    });
    assert(f - 1 > 0);
    assert(inner == arg_kind_spec(reg, elem.kind, g, (f - 1) as nat));
}

/// A depth within which argument resolution of `t` ends, in a registry
/// without definitions.
proof fn arg_fuel_empty(reg: Registry, t: Type, g: ContextM) -> (f: nat)
    requires
        reg.types@.len() == 0,
    ensures
        !(arg_type_spec(reg, t, g, f) is OutOfFuel),
    decreases t,
{
    lemma_flat_kind_from_fuel(reg, t.kind, 0);
    match t.kind {
        TypeKind::Sequence(b) => {
            let f = arg_fuel_empty(reg, *b, g);
            f + 1
        },
        TypeKind::Union(ts) => {
            match union_choice(ts@) {
                Some(u) => {
                    let c = choose|c: int| union_choice_at(ts@, c);
                    assert(decreases_to!(ts => ts[c]));
                    let f = arg_fuel_empty(reg, u, g);
                    f + 1
                },
                None => 1,
            }
        },
        _ => 1,
    }
}

/// A depth within which result resolution of `t` ends, in a registry
/// without definitions.
proof fn res_fuel_empty(reg: Registry, t: Type) -> (f: nat)
    requires
        reg.types@.len() == 0,
    ensures
        !(res_type_spec(reg, t, f) is OutOfFuel),
    decreases t,
{
    match t.kind {
        TypeKind::Sequence(b) => {
            let f = res_fuel_empty(reg, *b);
            f + 1
        },
        TypeKind::Union(ts) => {
            match union_choice(ts@) {
                Some(u) => {
                    let c = choose|c: int| union_choice_at(ts@, c);
                    assert(decreases_to!(ts => ts[c]));
                    let f = res_fuel_empty(reg, u);
                    f + 1
                },
                None => 1,
            }
        },
        _ => 1,
    }
}

/// A registry without definitions is well-formed.
pub proof fn lemma_empty_registry_wf(reg: Registry)
    requires
        reg.types@.len() == 0,
    ensures
        reg.wf(),
{
    assert forall|k: TypeKind| #[trigger] flattens(reg, k) by {
        lemma_flat_kind_from_fuel(reg, k, 0);
    }
    assert forall|t: Type, g: ContextM| #[trigger] arg_resolves(reg, t, g) by {
        let f = arg_fuel_empty(reg, t, g);
        assert(!(arg_type_spec(reg, t, g, f) is OutOfFuel));
    }
    assert forall|t: Type| #[trigger] res_resolves(reg, t) by {
        let f = res_fuel_empty(reg, t);
        assert(!(res_type_spec(reg, t, f) is OutOfFuel));
    }
    assert forall|d: crate::registry::Dictionary| #[trigger] fields_resolve(reg, d) by {
        assert(!(fields_spec(reg, d, 1) is OutOfFuel));
    }
    assert forall|i: crate::registry::Interface| #[trigger] members_resolve(reg, i) by {
        assert(!(members_spec(reg, i, 1) is OutOfFuel));
    }
}

} // verus!
