use webgl_generator::context::GenericContext;
use webgl_generator::marshal::{process_arg_type, process_result_type, ArgWrapper, GenError, ResultWrapper};
use webgl_generator::registry::{Callback, Dictionary, Enum, Field, Interface, Mixin, NamedType, Registry};
use webgl_generator::types::{Primitive, Type, TypeKind};

fn plain(kind: TypeKind) -> Type {
    Type { kind, optional: false }
}

fn registry(types: Vec<(&str, NamedType)>) -> Registry {
    Registry {
        types: types.into_iter().map(|(n, t)| (n.to_string(), t)).collect(),
        extensions: Vec::new(),
    }
}

fn empty_interface() -> Interface {
    Interface {
        doc_comment: String::new(),
        is_hidden: false,
        has_class: true,
        rendering_context: None,
        inherits: None,
        members: Vec::new(),
    }
}

#[test]
fn primitive_names() {
    assert_eq!(Primitive::Bool.name(), "bool");
    assert_eq!(Primitive::I64.name(), "i64");
    assert_eq!(Primitive::U16.name(), "u16");
    assert_eq!(Primitive::F64.name(), "f64");
}

#[test]
fn optional_is_idempotent() {
    let t = plain(TypeKind::Primitive(Primitive::U32));
    let o = t.optional();
    assert!(o.optional);
    assert_eq!(o.optional(), o);
    assert!(matches!(o.kind, TypeKind::Primitive(Primitive::U32)));
}

#[test]
fn type_from_name() {
    let t = Type::from("GLenum");
    assert!(!t.optional);
    assert!(matches!(t.kind, TypeKind::Named(ref n) if n == "GLenum"));
}

#[test]
fn flatten_sees_through_plain_typedefs() {
    let reg = registry(vec![
        ("GLenum", NamedType::Typedef(plain(TypeKind::Primitive(Primitive::U32)))),
        ("GLalias", NamedType::Typedef(Type::from("GLenum"))),
        ("Maybe", NamedType::Typedef(plain(TypeKind::String).optional())),
    ]);
    let k = TypeKind::Named("GLalias".to_string());
    let (name, flat) = k.flatten(&reg);
    assert_eq!(name, Some("GLalias"));
    assert_eq!(*flat, TypeKind::Primitive(Primitive::U32));
    let (_, again) = flat.flatten(&reg);
    assert_eq!(again, flat);
    let opt = TypeKind::Named("Maybe".to_string());
    let (name, flat) = opt.flatten(&reg);
    assert_eq!(name, Some("Maybe"));
    assert_eq!(*flat, opt);
    let (name, flat) = TypeKind::String.flatten(&reg);
    assert_eq!(name, None);
    assert_eq!(*flat, TypeKind::String);
}

#[test]
fn wide_integers_are_cast() {
    let reg = registry(vec![]);
    let mut gc = GenericContext::new();
    let a = process_arg_type(&plain(TypeKind::Primitive(Primitive::I64)), &reg, &mut gc).unwrap();
    assert_eq!(a.type_, "i64");
    assert!(matches!(a.wrapper, ArgWrapper::DoubleCast));
    assert_eq!(a.wrapper.wrap("x"), "(x as f64)");
    let b = process_arg_type(&plain(TypeKind::Primitive(Primitive::I32)), &reg, &mut gc).unwrap();
    assert_eq!(b.type_, "i32");
    assert!(matches!(b.wrapper, ArgWrapper::Direct));
    assert_eq!(gc.args(), "");
    assert_eq!(gc.constraints(), "");
}

#[test]
fn primitive_sequences_are_slices() {
    let reg = registry(vec![]);
    let mut gc = GenericContext::new();
    let seq = |p| plain(TypeKind::Sequence(Box::new(plain(TypeKind::Primitive(p)))));
    let a = process_arg_type(&seq(Primitive::F32), &reg, &mut gc).unwrap();
    assert_eq!(a.type_, "&[f32]");
    assert!(matches!(a.wrapper, ArgWrapper::Direct));
    let b = process_arg_type(&seq(Primitive::U64), &reg, &mut gc).unwrap();
    assert_eq!(b.type_, "&[u64]");
    assert_eq!(b.wrapper.wrap("v"), "v.iter().map(|inner| (inner as f64)).collect::<Vec<_>>()");
}

#[test]
fn union_collapses_to_typed_array() {
    let reg = registry(vec![]);
    let mut gc = GenericContext::new();
    let ta = plain(TypeKind::TypedArray(Primitive::F32));
    let u = plain(TypeKind::Union(vec![plain(TypeKind::Sequence(Box::new(ta.clone()))), ta]));
    let a = process_arg_type(&u, &reg, &mut gc).unwrap();
    assert_eq!(a.type_, "T0");
    assert!(matches!(a.wrapper, ArgWrapper::AsTypedArray));
    assert_eq!(a.wrapper.wrap("data"), "unsafe { data.as_typed_array() }");
    assert_eq!(gc.args(), "<'a0, T0>");
    assert_eq!(gc.constraints(), " where T0: AsTypedArray<'a0, f32>");
}

#[test]
fn unsupported_unions_are_fatal() {
    let reg = registry(vec![]);
    let mut gc = GenericContext::new();
    let ta = plain(TypeKind::TypedArray(Primitive::F32));
    let two = plain(TypeKind::Union(vec![ta.clone(), ta.clone()]));
    assert_eq!(process_arg_type(&two, &reg, &mut gc).err(), Some(GenError::UnsupportedUnion));
    let other = plain(TypeKind::Union(vec![plain(TypeKind::String), ta]));
    assert_eq!(process_arg_type(&other, &reg, &mut gc).err(), Some(GenError::UnsupportedUnion));
    let none = plain(TypeKind::Union(vec![]));
    assert_eq!(process_result_type(&none, &reg).err(), Some(GenError::UnsupportedUnion));
}

#[test]
fn mixin_as_argument_is_fatal() {
    let reg = registry(vec![("SomeMixinName", NamedType::Mixin(Mixin { members: Vec::new() }))]);
    let mut gc = GenericContext::new();
    let r = process_arg_type(&Type::from("SomeMixinName"), &reg, &mut gc);
    assert_eq!(r.err(), Some(GenError::MixinAsType));
    let r = process_result_type(&Type::from("SomeMixinName"), &reg);
    assert_eq!(r.err(), Some(GenError::MixinAsType));
}

#[test]
fn unknown_name_is_fatal() {
    let reg = registry(vec![]);
    let mut gc = GenericContext::new();
    assert_eq!(process_arg_type(&Type::from("Nope"), &reg, &mut gc).err(), Some(GenError::UnresolvedName));
    assert_eq!(process_result_type(&Type::from("Nope"), &reg).err(), Some(GenError::UnresolvedName));
}

#[test]
fn named_arguments() {
    let reg = registry(vec![
        ("WebGLBuffer", NamedType::Interface(empty_interface())),
        ("BlendFactor", NamedType::Enum(Enum { variants: vec!["ZERO".to_string(), "ONE".to_string()] })),
        ("FrameRequestCallback", NamedType::Callback(Callback { args: Vec::new(), return_type: None })),
        ("MaybeText", NamedType::Typedef(plain(TypeKind::String).optional())),
    ]);
    let mut gc = GenericContext::new();
    let a = process_arg_type(&Type::from("WebGLBuffer"), &reg, &mut gc).unwrap();
    assert_eq!(a.type_, "&WebGLBuffer");
    let a = process_arg_type(&Type::from("WebGLBuffer").optional(), &reg, &mut gc).unwrap();
    assert_eq!(a.type_, "Option<&WebGLBuffer>");
    assert!(a.optional);
    let e = process_arg_type(&Type::from("BlendFactor"), &reg, &mut gc).unwrap();
    assert_eq!(e.type_, "BlendFactor");
    let t = process_arg_type(&Type::from("MaybeText"), &reg, &mut gc).unwrap();
    assert_eq!(t.type_, "Option<&str>");
    let c = process_arg_type(&Type::from("FrameRequestCallback"), &reg, &mut gc).unwrap();
    assert_eq!(c.type_, "F0");
    assert_eq!(c.wrapper.wrap("cb"), "Once(cb)");
    let any = process_arg_type(&plain(TypeKind::Any), &reg, &mut gc).unwrap();
    assert_eq!(any.type_, "T0");
    let obj = process_arg_type(&plain(TypeKind::Object), &reg, &mut gc).unwrap();
    assert_eq!(obj.type_, "T1");
    assert_eq!(gc.args(), "<F0, T0, T1>");
    assert_eq!(gc.constraints(), " where F0: FnOnce() + 'static, T0: JsSerialize, T1: JsSerialize");
}

#[test]
fn optional_wrapper_maps_inner() {
    let reg = registry(vec![]);
    let mut gc = GenericContext::new();
    let t = plain(TypeKind::ArrayBufferView).optional();
    let a = process_arg_type(&t, &reg, &mut gc).unwrap();
    assert_eq!(a.type_, "Option<T0>");
    assert_eq!(a.wrapper.wrap("v"), "v.map(|inner| unsafe { inner.as_array_buffer_view() })");
    assert_eq!(gc.constraints(), " where T0: AsArrayBufferView<'a0>");
}

#[test]
fn results() {
    let reg = registry(vec![
        ("GLenum", NamedType::Typedef(plain(TypeKind::Primitive(Primitive::U32)))),
        ("MaybeText", NamedType::Typedef(plain(TypeKind::String).optional())),
        ("Cb", NamedType::Callback(Callback { args: Vec::new(), return_type: None })),
    ]);
    let r = process_result_type(&Type::from("GLenum"), &reg).unwrap();
    assert_eq!(r.type_, "GLenum");
    assert_eq!(r.wrapper, ResultWrapper::Strict);
    let r = process_result_type(&Type::from("MaybeText"), &reg).unwrap();
    assert_eq!(r.type_, "MaybeText");
    assert_eq!(r.wrapper, ResultWrapper::Lenient);
    assert!(r.optional);
    let r = process_result_type(&plain(TypeKind::Primitive(Primitive::F32)).optional(), &reg).unwrap();
    assert_eq!(r.type_, "Option<f32>");
    assert_eq!(r.wrapper.wrap("x"), "x.try_into().ok()");
    let s = plain(TypeKind::Sequence(Box::new(plain(TypeKind::TypedArray(Primitive::U8)))));
    let r = process_result_type(&s, &reg).unwrap();
    assert_eq!(r.type_, "Vec<TypedArray<u8>>");
    assert_eq!(r.wrapper.wrap("x"), "x.try_into().unwrap()");
    assert_eq!(process_result_type(&plain(TypeKind::BufferSource), &reg).err(), Some(GenError::InputOnlyResult));
    assert_eq!(process_result_type(&Type::from("Cb"), &reg).err(), Some(GenError::InputOnlyResult));
    assert_eq!(process_result_type(&plain(TypeKind::Object), &reg).unwrap().type_, "Value");
}

#[test]
fn context_names_are_fresh_and_sorted() {
    let mut gc = GenericContext::new();
    assert_eq!(gc.arg("T"), "T0");
    assert_eq!(gc.arg("T"), "T1");
    assert_eq!(gc.arg("'a"), "'a0");
    assert_eq!(gc.arg("T"), "T2");
    gc.constrain("T0: A".to_string());
    gc.constrain("T0: A".to_string());
    assert_eq!(gc.args(), "<'a0, T0, T1, T2>");
    assert_eq!(gc.constraints(), " where T0: A, T0: A");
}

#[test]
fn collect_fields_shadows_inherited() {
    let f = |p| Field { type_: plain(TypeKind::Primitive(p)) };
    let reg = registry(vec![
        (
            "Base",
            NamedType::Dictionary(Dictionary {
                is_hidden: false,
                inherits: None,
                fields: vec![("a".to_string(), f(Primitive::U8)), ("b".to_string(), f(Primitive::U8))],
            }),
        ),
        ("NotDict", NamedType::Enum(Enum { variants: Vec::new() })),
    ]);
    let child = Dictionary {
        is_hidden: false,
        inherits: Some("Base".to_string()),
        fields: vec![("b".to_string(), f(Primitive::F64)), ("c".to_string(), f(Primitive::Bool))],
    };
    let fields = child.collect_fields(&reg).unwrap();
    let names: Vec<&str> = fields.iter().map(|(n, _)| n.as_str()).collect();
    assert_eq!(names, vec!["a", "b", "c"]);
    assert_eq!(fields[1].1.type_, plain(TypeKind::Primitive(Primitive::F64)));
    let orphan = Dictionary { is_hidden: false, inherits: Some("Missing".to_string()), fields: Vec::new() };
    assert_eq!(orphan.collect_fields(&reg).err(), Some(GenError::UnresolvedName));
    let odd = Dictionary { is_hidden: false, inherits: Some("NotDict".to_string()), fields: Vec::new() };
    assert_eq!(odd.collect_fields(&reg).err(), Some(GenError::InheritsOtherKind));
}

#[test]
fn context_orders_parameters_as_text() {
    let mut gc = GenericContext::new();
    for _ in 0..12 {
        gc.arg("T");
    }
    assert_eq!(gc.arg("'a"), "'a0");
    assert_eq!(gc.args(), "<'a0, T0, T1, T10, T11, T2, T3, T4, T5, T6, T7, T8, T9>");
    assert_eq!(gc.arg("T1"), "T12");
}
