use webgl_generator::generator::{
    write_attribute, write_dictionary, write_enum, write_extension, write_field, write_get_extension,
    write_interface, write_operation, write_typedef, StdwebGenerator,
};
use webgl_generator::marshal::GenError;
use webgl_generator::naming::{camel, shouty_snake, snake, unreserve};
use webgl_generator::registry::{
    Argument, Attribute, Const, Dictionary, Enum, Field, Interface, Member, NamedType, Operation, Registry,
};
use webgl_generator::types::{Primitive, Type, TypeKind};

fn plain(kind: TypeKind) -> Type {
    Type { kind, optional: false }
}

fn registry(types: Vec<(&str, NamedType)>, extensions: Vec<&str>) -> Registry {
    Registry {
        types: types.into_iter().map(|(n, t)| (n.to_string(), t)).collect(),
        extensions: extensions.into_iter().map(|e| e.to_string()).collect(),
    }
}

fn interface(members: Vec<(&str, Vec<Member>)>, has_class: bool) -> Interface {
    Interface {
        doc_comment: String::new(),
        is_hidden: false,
        has_class,
        rendering_context: None,
        inherits: None,
        members: members.into_iter().map(|(n, m)| (n.to_string(), m)).collect(),
    }
}

#[test]
fn naming_conventions() {
    assert_eq!(snake("bufferData"), "buffer_data");
    assert_eq!(snake("texImage2D"), "tex_image2_d");
    assert_eq!(shouty_snake("bufferData"), "BUFFER_DATA");
    assert_eq!(camel("ONE_MINUS_SRC_ALPHA"), "OneMinusSrcAlpha");
    assert_eq!(camel("high-performance"), "HighPerformance");
    assert_eq!(unreserve("type".to_string()), "type_");
    assert_eq!(unreserve("width".to_string()), "width");
}

#[test]
fn enum_keeps_raw_tags() {
    let e = Enum { variants: vec!["ZERO".to_string(), "ONE".to_string()] };
    let text = write_enum("BlendFactor", &e);
    assert!(text.contains("pub enum BlendFactor {"));
    assert!(text.contains("#[serde(rename = \"ZERO\")]\n    Zero,"));
    assert!(text.contains("#[serde(rename = \"ONE\")]\n    One,"));
    assert_eq!(text.matches("#[serde(rename").count(), 2);
    assert!(text.contains("js_deserializable!(BlendFactor);\njs_serializable!(BlendFactor);"));
}

#[test]
fn optional_field_is_omittable() {
    let reg = registry(vec![], vec![]);
    let f = Field { type_: plain(TypeKind::Primitive(Primitive::U32)).optional() };
    let text = write_field("stencil", &f, &reg).unwrap();
    assert_eq!(
        text,
        "\n    #[serde(default, skip_serializing_if = \"Option::is_none\")]\n    stencil: Option<u32>,\n"
    );
    let g = Field { type_: plain(TypeKind::Primitive(Primitive::U32)) };
    assert_eq!(write_field("stencil", &g, &reg).unwrap(), "\n    stencil: u32,\n");
    let h = Field { type_: plain(TypeKind::Primitive(Primitive::Bool)) };
    assert_eq!(
        write_field("failIfMajorPerformanceCaveat", &h, &reg).unwrap(),
        "\n    #[serde(rename = \"failIfMajorPerformanceCaveat\")]\n    fail_if_major_performance_caveat: bool,\n"
    );
}

#[test]
fn dictionary_with_optional_field() {
    let d = Dictionary {
        is_hidden: false,
        inherits: None,
        fields: vec![("alpha".to_string(), Field { type_: plain(TypeKind::Primitive(Primitive::Bool)).optional() })],
    };
    let reg = registry(vec![], vec![]);
    let text = write_dictionary("Attrs", &d, &reg).unwrap();
    assert!(text.starts_with("\n#[derive(Debug, Clone, Serialize, Deserialize)]\npub struct Attrs {\n    "));
    assert!(text.contains("skip_serializing_if = \"Option::is_none\""));
    assert!(text.contains("alpha: Option<bool>,"));
    let hidden = Dictionary { is_hidden: true, inherits: None, fields: Vec::new() };
    assert_eq!(write_dictionary("Hidden", &hidden, &reg).unwrap(), "");
}

#[test]
fn typedef_uses_result_type() {
    let reg = registry(vec![], vec![]);
    let t = plain(TypeKind::Sequence(Box::new(plain(TypeKind::Primitive(Primitive::I32)))));
    assert_eq!(write_typedef("Ints", &t, &reg).unwrap(), "#[allow(dead_code)] pub type Ints = Vec<i32>;\n");
    let b = plain(TypeKind::BufferSource);
    assert_eq!(write_typedef("Src", &b, &reg).err(), Some(GenError::InputOnlyResult));
}

#[test]
fn attribute_getter_and_setter() {
    let reg = registry(vec![], vec![]);
    let a = Attribute { type_: plain(TypeKind::Primitive(Primitive::F64)), getter: true, setter: true };
    let text = write_attribute("lineWidth", &a, &reg).unwrap();
    assert_eq!(
        text,
        "\n\n    pub fn line_width(&self) -> f64 {\n        (js! { return @{self}.lineWidth; } ).try_into().unwrap()\n    }\n\n    pub fn set_line_width(&self, value: f64) {\n        js!( @(no_return) @{self}.lineWidth = @{value}; );\n    }"
    );
}

#[test]
fn operation_with_generic_argument() {
    let reg = registry(vec![], vec![]);
    let op = Operation {
        args: vec![
            Argument { name: "target".to_string(), type_: plain(TypeKind::Primitive(Primitive::U32)) },
            Argument { name: "data".to_string(), type_: plain(TypeKind::TypedArray(Primitive::F32)) },
        ],
        return_type: None,
        doc_comment: String::new(),
    };
    let text = write_operation("bufferData", 0, &op, &reg).unwrap();
    assert_eq!(
        text,
        "\n\n    pub fn buffer_data<'a0, T0>(&self, target: u32, data: T0) where T0: AsTypedArray<'a0, f32> {\n        js!( @(no_return) @{self}.bufferData(@{target}, @{unsafe { data.as_typed_array() }}); );\n    }"
    );
    let second = write_operation("bufferData", 1, &op, &reg).unwrap();
    assert!(second.contains("pub fn buffer_data_1<'a0, T0>"));
}

#[test]
fn operation_with_result() {
    let reg = registry(vec![], vec![]);
    let op = Operation {
        args: vec![],
        return_type: Some(plain(TypeKind::Primitive(Primitive::U32)).optional()),
        doc_comment: "/// Get the error.\n    ".to_string(),
    };
    let text = write_operation("getError", 0, &op, &reg).unwrap();
    assert_eq!(
        text,
        "\n\n    /// Get the error.\n    pub fn get_error(&self, ) -> Option<u32> {\n        (js! { return @{self}.getError(); } ).try_into().ok()\n    }"
    );
}

#[test]
fn probe_yields_absent_value() {
    let reg = registry(vec![], vec!["OES_texture_float"]);
    let op = Operation { args: vec![], return_type: Some(Type::from("object")), doc_comment: String::new() };
    let text = write_operation("getExtension", 0, &op, &reg).unwrap();
    assert_eq!(text, write_get_extension());
    assert!(text.contains("pub fn get_extension<E: Extension>(&self) -> Option<E>"));
    assert!(text.contains(".try_into().ok()"));
    assert!(!text.contains("unwrap"));
}

#[test]
fn extension_marker() {
    assert_eq!(
        write_extension("OES_texture_float"),
        "\nimpl Extension for OES_texture_float {\n    const NAME: &'static str = \"OES_texture_float\";\n}\n"
    );
}

#[test]
fn interface_members_and_checks() {
    let reg = registry(vec![], vec![]);
    let i = interface(
        vec![
            ("DEPTH_BUFFER_BIT", vec![Member::Const(Const { type_: plain(TypeKind::Primitive(Primitive::U32)), value: "0x0100".to_string() })]),
        ],
        false,
    );
    let text = write_interface("WebGLThing", &i, &reg).unwrap();
    assert!(text.contains("pub struct WebGLThing(Reference);"));
    assert!(text.contains("    pub const DEPTH_BUFFER_BIT: u32 = 0x0100;"));
    assert!(text.contains("fn instance_of(_reference: &Reference) -> bool"));
    let c = interface(vec![], true);
    let text = write_interface("GLContext", &c, &reg).unwrap();
    assert!(text.contains("includes(@{{reference}}.constructor)"));
    assert!(!text.contains("instance_of = "));
    let k = interface(vec![], true);
    let text = write_interface("WebGLBuffer", &k, &reg).unwrap();
    assert!(text.contains("#[reference(instance_of = \"WebGLBuffer\")]\n"));
    assert!(!text.contains("impl InstanceOf"));
    let twice = interface(
        vec![(
            "x",
            vec![
                Member::Attribute(Attribute { type_: plain(TypeKind::String), getter: true, setter: false }),
                Member::Attribute(Attribute { type_: plain(TypeKind::String), getter: true, setter: false }),
            ],
        )],
        true,
    );
    assert_eq!(write_interface("Twice", &twice, &reg).err(), Some(GenError::OverloadedMember));
}

#[test]
fn whole_registry_in_order() {
    let reg = registry(
        vec![
            ("Ctx", NamedType::Interface(interface(vec![], true))),
            ("Mode", NamedType::Enum(Enum { variants: vec!["ZERO".to_string()] })),
            ("GLenum", NamedType::Typedef(plain(TypeKind::Primitive(Primitive::U32)))),
            ("Opts", NamedType::Dictionary(Dictionary { is_hidden: false, inherits: None, fields: Vec::new() })),
        ],
        vec!["EXT_one"],
    );
    let text = StdwebGenerator.generate(&reg).unwrap();
    let t = text.find("pub type GLenum").unwrap();
    let e = text.find("pub enum Mode").unwrap();
    let d = text.find("pub struct Opts").unwrap();
    let i = text.find("pub struct Ctx").unwrap();
    let x = text.find("impl Extension for EXT_one").unwrap();
    assert!(t < e && e < d && d < i && i < x);
}

#[test]
fn interface_inherits_members() {
    let op = |ret: Primitive| {
        vec![Member::Operation(Operation {
            args: vec![],
            return_type: Some(plain(TypeKind::Primitive(ret))),
            doc_comment: String::new(),
        })]
    };
    let base = interface(vec![("getA", op(Primitive::U8)), ("getB", op(Primitive::U8))], true);
    let reg = registry(vec![("Base", NamedType::Interface(base)), ("Mode", NamedType::Enum(Enum { variants: Vec::new() }))], vec![]);
    let mut child = interface(vec![("getB", op(Primitive::F32)), ("getC", op(Primitive::Bool))], true);
    child.inherits = Some("Base".to_string());
    let groups = child.collect_members(&reg).unwrap();
    let names: Vec<&str> = groups.iter().map(|(n, _)| n.as_str()).collect();
    assert_eq!(names, vec!["getA", "getB", "getC"]);
    let text = write_interface("Child", &child, &reg).unwrap();
    assert!(text.contains("pub fn get_a(&self, ) -> u8"));
    assert!(text.contains("pub fn get_b(&self, ) -> f32"));
    assert!(!text.contains("pub fn get_b(&self, ) -> u8"));
    assert!(text.contains("pub fn get_c(&self, ) -> bool"));
    let mut odd = interface(vec![], true);
    odd.inherits = Some("Mode".to_string());
    assert_eq!(odd.collect_members(&reg).err(), Some(GenError::InheritsOtherKind));
    odd.inherits = Some("Missing".to_string());
    assert_eq!(write_interface("Odd", &odd, &reg).err(), Some(GenError::UnresolvedName));
}
