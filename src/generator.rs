//! Generation of binding source text for a whole registry: typedefs,
//! enumerations, dictionaries, interfaces and extension markers.

use vstd::prelude::*;

use crate::context::{ContextM, GenericContext};
use crate::text::{decimal, decimal_text};
use crate::marshal::{
    arg_outcome, arg_wrap_text, process_arg_type, process_result_type, res_outcome, res_wrap_text,
    ArgM, GenError, ResM, Resolved, ResultWrapper,
};
use crate::naming::{camel, camel_spec, shouty_snake, snake, snake_spec, unreserve, unreserve_spec};
use crate::registry::{
    fields_outcome, field_refs, members_outcome, MembersM, Argument, Attribute, Const, Dictionary, Enum, Field, FieldM,
    Interface, Member, NamedType, Operation, Registry,
};
use crate::text::{join, join_texts, same_text, texts};
use crate::types::Type;

verus! {

/// Whether generated text agrees with a generation outcome.
pub open spec fn text_agrees(r: Result<String, GenError>, o: Resolved<Seq<char>>) -> bool {
    match r {
        Ok(t) => o == Resolved::Done(t@),
        Err(e) => o == Resolved::<Seq<char>>::Fatal(e),
    }
}

/// The text that a resolved result gives, by `f`.
pub open spec fn with_result(o: Resolved<ResM>, f: spec_fn(ResM) -> Seq<char>) -> Resolved<Seq<char>> {
    match o {
        Resolved::Done(a) => Resolved::Done(f(a)),
        Resolved::Fatal(e) => Resolved::Fatal(e),
        Resolved::OutOfFuel => Resolved::OutOfFuel,
    }
}

/// A type alias, under the host name of what it aliases.
pub open spec fn typedef_spec(reg: Registry, name: Seq<char>, t: Type) -> Resolved<Seq<char>> {
    with_result(
        res_outcome(reg, t),
        |a: ResM| "#[allow(dead_code)] pub type "@ + name + " = "@ + a.type_ + ";\n"@,
    )
}

/// Generate a type alias.
pub fn write_typedef(name: &str, type_: &Type, registry: &Registry) -> (r: Result<String, GenError>)
    requires
        registry.wf(),
    ensures
        text_agrees(r, typedef_spec(*registry, name@, *type_)),
{
    match process_result_type(type_, registry) {
        Ok(a) => Ok(
            String::from_str("#[allow(dead_code)] pub type ").concat(name).concat(" = ").concat(
                a.type_.as_str(),
            ).concat(";\n"),
        ),
        Err(e) => Err(e),
    }
}

/// The closing of a generated enumeration or dictionary, with its conversions.
pub open spec fn item_tail(name: Seq<char>) -> Seq<char> {
    "\n}\njs_deserializable!("@ + name + ");\njs_serializable!("@ + name + ");\n    \n"@
}

fn write_item_tail(name: &str) -> (r: String)
    ensures
        r@ == item_tail(name@),
{
    String::from_str("\n}\njs_deserializable!(").concat(name).concat(");\njs_serializable!(").concat(
        name,
    ).concat(");\n    \n")
}

/// One tag of an enumeration, renamed to its raw tag on the wire.
pub open spec fn variant_text(raw: Seq<char>) -> Seq<char> {
    "\n    #[serde(rename = \""@ + raw + "\")]\n    "@ + camel_spec(raw) + ",\n"@
}

/// The tags of an enumeration, in order.
pub open spec fn variants_text(vs: Seq<Seq<char>>) -> Seq<char>
    decreases vs.len(),
{
    if vs.len() == 0 {
        Seq::empty()
    } else {
        variants_text(vs.drop_last()) + variant_text(vs.last())
    }
}

/// A closed enumeration over the raw tags, each tag keeping its raw label.
pub open spec fn enum_spec(name: Seq<char>, e: Enum) -> Seq<char> {
    "\n#[derive(Debug, Clone, Eq, PartialEq, Ord, PartialOrd, Hash, Serialize, Deserialize)]\npub enum "@
        + name + " {\n    "@ + variants_text(texts(e.variants@)) + item_tail(name)
}

/// Generate an enumeration.
pub fn write_enum(name: &str, enum_: &Enum) -> (r: String)
    ensures
        r@ == enum_spec(name@, *enum_),
{
    let mut body = String::new();
    let mut i: usize = 0;
    while i < enum_.variants.len()
        invariant
            i <= enum_.variants@.len(),
            body@ == variants_text(texts(enum_.variants@).take(i as int)),
        decreases enum_.variants@.len() - i,
    {
        let raw = enum_.variants[i].as_str();
        let v = String::from_str("\n    #[serde(rename = \"").concat(raw).concat("\")]\n    ").concat(
            camel(raw).as_str(),
        ).concat(",\n");
        assert(texts(enum_.variants@).take(i + 1).drop_last() =~= texts(enum_.variants@).take(
            i as int,
        ));
        body = body.concat(v.as_str());
        i = i + 1;
    }
    assert(texts(enum_.variants@).take(i as int) =~= texts(enum_.variants@));
    String::from_str(
        "\n#[derive(Debug, Clone, Eq, PartialEq, Ord, PartialOrd, Hash, Serialize, Deserialize)]\npub enum ",
    ).concat(name).concat(" {\n    ").concat(body.as_str()).concat(write_item_tail(name).as_str())
}

/// The serde attributes of a field: a rename where the host name differs,
/// and omission when absent where the field is optional.
pub open spec fn field_attrs(name: Seq<char>, host: Seq<char>, optional: bool) -> Seq<Seq<char>> {
    (if host != name {
        seq!["rename = \""@ + name + "\""@]
    } else {
        Seq::empty()
    }) + (if optional {
        seq!["default"@, "skip_serializing_if = \"Option::is_none\""@]
    } else {
        Seq::empty()
    })
}

/// The attribute line of a field, if it has attributes.
pub open spec fn attrs_text(attrs: Seq<Seq<char>>) -> Seq<char> {
    if attrs.len() == 0 {
        Seq::empty()
    } else {
        "\n    #[serde("@ + join(attrs, ", "@) + ")]"@
    }
}

/// The host name of a field, method or argument.
pub open spec fn host_name(name: Seq<char>) -> Seq<char> {
    unreserve_spec(snake_spec(name, false))
}

/// A field of a generated dictionary.
pub open spec fn field_spec(reg: Registry, name: Seq<char>, field: Field) -> Resolved<Seq<char>> {
    with_result(
        res_outcome(reg, field.type_),
        |a: ResM|
            attrs_text(field_attrs(name, host_name(name), a.optional)) + "\n    "@ + host_name(name)
                + ": "@ + a.type_ + ",\n"@,
    )
}

/// Generate a field of a dictionary.
pub fn write_field(name: &str, field: &Field, registry: &Registry) -> (r: Result<String, GenError>)
    requires
        registry.wf(),
    ensures
        text_agrees(r, field_spec(*registry, name@, *field)),
{
    let field_name = unreserve(snake(name));
    let field_type = match process_result_type(&field.type_, registry) {
        Ok(a) => a,
        Err(e) => {
            return Err(e);
        },
    };
    let mut attrs: Vec<String> = Vec::new();
    if !same_text(field_name.as_str(), name) {
        attrs.push(String::from_str("rename = \"").concat(name).concat("\""));
    }
    if field_type.optional {
        attrs.push(String::from_str("default"));
        attrs.push(String::from_str("skip_serializing_if = \"Option::is_none\""));
    }
    assert(texts(attrs@) =~= field_attrs(name@, field_name@, field_type.optional));
    let attr_line = if attrs.len() == 0 {
        String::new()
    } else {
        String::from_str("\n    #[serde(").concat(join_texts(&attrs, ", ").as_str()).concat(")]")
    };
    Ok(
        attr_line.concat("\n    ").concat(field_name.as_str()).concat(": ").concat(
            field_type.type_.as_str(),
        ).concat(",\n"),
    )
}

/// The texts that `f` gives for each item of `xs`, with its index, joined;
/// the first failure, if any.
pub open spec fn concat_all<A>(xs: Seq<A>, f: spec_fn(int, A) -> Resolved<Seq<char>>) -> Resolved<
    Seq<char>,
>
    decreases xs.len(),
{
    if xs.len() == 0 {
        Resolved::Done(Seq::empty())
    } else {
        match concat_all(xs.drop_last(), f) {
            Resolved::Done(t) => match f(xs.len() - 1, xs.last()) {
                Resolved::Done(u) => Resolved::Done(t + u),
                other => other,
            },
            other => other,
        }
    }
}

/// A failure in a prefix of the items is the failure of them all.
proof fn lemma_concat_prefix_fatal<A>(xs: Seq<A>, f: spec_fn(int, A) -> Resolved<Seq<char>>, n: int)
    requires
        0 <= n <= xs.len(),
        concat_all(xs.take(n), f) is Fatal,
    ensures
        concat_all(xs, f) == concat_all(xs.take(n), f),
    decreases xs.len() - n,
{
    if n < xs.len() {
        assert(xs.take(n + 1).drop_last() =~= xs.take(n));
        lemma_concat_prefix_fatal(xs, f, n + 1);
    } else {
        assert(xs.take(n) =~= xs);
    }
}

/// The text of one collected field.
pub open spec fn field_fn(reg: Registry) -> spec_fn(int, FieldM) -> Resolved<Seq<char>> {
    |i: int, p: FieldM| field_spec(reg, p.0, p.1)
}

/// The fields of a dictionary, in order.
pub open spec fn fields_text(reg: Registry, fs: Seq<FieldM>) -> Resolved<Seq<char>> {
    concat_all(fs, field_fn(reg))
}

/// A record of the dictionary's fields and those it inherits; nothing for a
/// hidden dictionary.
pub open spec fn dictionary_spec(reg: Registry, name: Seq<char>, d: Dictionary) -> Resolved<Seq<char>> {
    if d.is_hidden {
        Resolved::Done(Seq::empty())
    } else {
        match fields_outcome(reg, d) {
            Resolved::Done(fs) => match fields_text(reg, fs) {
                Resolved::Done(body) => Resolved::Done(
                    "\n#[derive(Debug, Clone, Serialize, Deserialize)]\npub struct "@ + name
                        + " {\n    "@ + body + item_tail(name),
                ),
                other => other,
            },
            Resolved::Fatal(e) => Resolved::Fatal(e),
            Resolved::OutOfFuel => Resolved::OutOfFuel,
        }
    }
}

/// Generate a dictionary.
pub fn write_dictionary(name: &str, dictionary: &Dictionary, registry: &Registry) -> (r: Result<
    String,
    GenError,
>)
    requires
        registry.wf(),
    ensures
        text_agrees(r, dictionary_spec(*registry, name@, *dictionary)),
{
    if dictionary.is_hidden {
        return Ok(String::new());
    }
    let fields = match dictionary.collect_fields(registry) {
        Ok(v) => v,
        Err(e) => {
            return Err(e);
        },
    };
    let ghost fs = crate::registry::field_refs(fields@);
    let mut body = String::new();
    let mut i: usize = 0;
    while i < fields.len()
        invariant
            registry.wf(),
            fs == crate::registry::field_refs(fields@),
            fields_outcome(*registry, *dictionary) == Resolved::Done(fs),
            !dictionary.is_hidden,
            i <= fields@.len(),
            fields_text(*registry, fs.take(i as int)) == Resolved::Done(body@),
        decreases fields@.len() - i,
    {
        assert(fs.take(i + 1).drop_last() =~= fs.take(i as int));
        let (fname, field) = fields[i];
        match write_field(fname.as_str(), field, registry) {
            Ok(t) => {
                body = body.concat(t.as_str());
            },
            Err(e) => {
                proof {
                    assert(fs[i as int] == (fname@, *field));
                    assert(fs.take(i + 1).last() == fs[i as int]);
                    assert(fields_text(*registry, fs.take(i + 1)) == Resolved::<Seq<char>>::Fatal(e));
                    lemma_concat_prefix_fatal(fs, field_fn(*registry), (i + 1) as int);
                }
                return Err(e);
            },
        }
        i = i + 1;
    }
    assert(fs.take(i as int) =~= fs);
    Ok(
        String::from_str("\n#[derive(Debug, Clone, Serialize, Deserialize)]\npub struct ").concat(
            name,
        ).concat(" {\n    ").concat(body.as_str()).concat(write_item_tail(name).as_str()),
    )
}

/// A constant member, under its upper snake case name.
pub open spec fn const_spec(reg: Registry, name: Seq<char>, c: Const) -> Resolved<Seq<char>> {
    with_result(
        res_outcome(reg, c.type_),
        |a: ResM|
            "\n    pub const "@ + snake_spec(name, true) + ": "@ + a.type_ + " = "@ + c.value@
                + ";"@,
    )
}

/// Generate a constant member.
pub fn write_const(name: &str, const_: &Const, registry: &Registry) -> (r: Result<String, GenError>)
    requires
        registry.wf(),
    ensures
        text_agrees(r, const_spec(*registry, name@, *const_)),
{
    match process_result_type(&const_.type_, registry) {
        Ok(a) => Ok(
            String::from_str("\n    pub const ").concat(shouty_snake(name).as_str()).concat(
                ": ",
            ).concat(a.type_.as_str()).concat(" = ").concat(const_.value.as_str()).concat(";"),
        ),
        Err(e) => Err(e),
    }
}

/// The marker of an extension: its type carries its literal name.
pub open spec fn extension_spec(name: Seq<char>) -> Seq<char> {
    "\nimpl Extension for "@ + name + " {\n    const NAME: &'static str = \""@ + name + "\";\n}\n"@
}

/// Generate the marker of an extension.
pub fn write_extension(name: &str) -> (r: String)
    ensures
        r@ == extension_spec(name@),
{
    String::from_str("\nimpl Extension for ").concat(name).concat(
        " {\n    const NAME: &'static str = \"",
    ).concat(name).concat("\";\n}\n")
}

/// The getter of an attribute.
pub open spec fn getter_text(name: Seq<char>, a: ResM) -> Seq<char> {
    "\n\n    pub fn "@ + host_name(name) + "(&self) -> "@ + a.type_ + " {\n        "@ + res_wrap_text(
        a.wrapper,
        "(js! { return @{self}."@ + name + "; } )"@,
    ) + "\n    }"@
}

/// The setter of an attribute, generic over what its argument needs.
pub open spec fn setter_text(name: Seq<char>, a: ArgM, g: ContextM) -> Seq<char> {
    "\n\n    pub fn set_"@ + snake_spec(name, false) + g.params_text() + "(&self, value: "@ + a.type_
        + ")"@ + g.where_text() + " {\n        js!( @(no_return) @{self}."@ + name + " = @{"@
        + arg_wrap_text(a.wrapper, "value"@) + "}; );\n    }"@
}

/// An attribute member: its getter and its setter, as it has them.
pub open spec fn attribute_spec(reg: Registry, name: Seq<char>, at: Attribute) -> Resolved<Seq<char>> {
    let get = if at.getter {
        with_result(res_outcome(reg, at.type_), |a: ResM| getter_text(name, a))
    } else {
        Resolved::Done(Seq::empty())
    };
    let set = if at.setter {
        match arg_outcome(reg, at.type_, ContextM::empty()) {
            Resolved::Done((a, g)) => Resolved::Done(setter_text(name, a, g)),
            Resolved::Fatal(e) => Resolved::Fatal(e),
            Resolved::OutOfFuel => Resolved::OutOfFuel,
        }
    } else {
        Resolved::Done(Seq::empty())
    };
    match get {
        Resolved::Done(t) => match set {
            Resolved::Done(u) => Resolved::Done(t + u),
            other => other,
        },
        other => other,
    }
}

/// Generate an attribute member.
pub fn write_attribute(name: &str, attribute: &Attribute, registry: &Registry) -> (r: Result<
    String,
    GenError,
>)
    requires
        registry.wf(),
    ensures
        text_agrees(r, attribute_spec(*registry, name@, *attribute)),
{
    let mut out = String::new();
    if attribute.getter {
        let result_type = match process_result_type(&attribute.type_, registry) {
            Ok(a) => a,
            Err(e) => {
                return Err(e);
            },
        };
        let expr = result_type.wrapper.wrap(
            String::from_str("(js! { return @{self}.").concat(name).concat("; } )").as_str(),
        );
        out = String::from_str("\n\n    pub fn ").concat(unreserve(snake(name)).as_str()).concat(
            "(&self) -> ",
        ).concat(result_type.type_.as_str()).concat(" {\n        ").concat(expr.as_str()).concat(
            "\n    }",
        );
    }
    if attribute.setter {
        let mut gc = GenericContext::new();
        let arg_type = match process_arg_type(&attribute.type_, registry, &mut gc) {
            Ok(a) => a,
            Err(e) => {
                return Err(e);
            },
        };
        let set = String::from_str("\n\n    pub fn set_").concat(snake(name).as_str()).concat(
            gc.args().as_str(),
        ).concat("(&self, value: ").concat(arg_type.type_.as_str()).concat(")").concat(
            gc.constraints().as_str(),
        ).concat(" {\n        js!( @(no_return) @{self}.").concat(name).concat(" = @{").concat(
            arg_type.wrapper.wrap("value").as_str(),
        ).concat("}; );\n    }");
        out = out.concat(set.as_str());
    }
    proof {
        if !attribute.getter {
            assert(Seq::<char>::empty() + out@ =~= out@);
        }
        if !attribute.setter {
            assert(out@ + Seq::<char>::empty() =~= out@);
        }
    }
    Ok(out)
}

/// The expression of the capability probe: an absent result where the
/// extension is not supported, by the lenient conversion.
pub open spec fn probe_expr() -> Seq<char> {
    res_wrap_text(
        ResultWrapper::Lenient,
        "(js! { return @{self}.getExtension(@{E::NAME}); } )"@,
    )
}

/// The capability probe: one operation generic over the extension asked for.
pub open spec fn probe_text() -> Seq<char> {
    "\n\n    pub fn get_extension<E: Extension>(&self) -> Option<E> {\n        "@ + probe_expr()
        + "\n    }"@
}

/// Generate the capability probe.
pub fn write_get_extension() -> (r: String)
    ensures
        r@ == probe_text(),
{
    let expr = ResultWrapper::Lenient.wrap("(js! { return @{self}.getExtension(@{E::NAME}); } )");
    String::from_str("\n\n    pub fn get_extension<E: Extension>(&self) -> Option<E> {\n        ").concat(
        expr.as_str(),
    ).concat("\n    }")
}

/// The parameters of an operation as declared and as passed on, with the
/// context after their resolution in order.
pub open spec fn op_args_spec(reg: Registry, args: Seq<Argument>, g: ContextM) -> Resolved<
    (Seq<Seq<char>>, Seq<Seq<char>>, ContextM),
>
    decreases args.len(),
{
    if args.len() == 0 {
        Resolved::Done((Seq::empty(), Seq::empty(), g))
    } else {
        match op_args_spec(reg, args.drop_last(), g) {
            Resolved::Done((rs, js, g1)) => match arg_outcome(reg, args.last().type_, g1) {
                Resolved::Done((a, g2)) => {
                    let an = host_name(args.last().name@);
                    Resolved::Done(
                        (
                            rs.push(an + ": "@ + a.type_),
                            js.push("@{"@ + arg_wrap_text(a.wrapper, an) + "}"@),
                            g2,
                        ),
                    )
                },
                Resolved::Fatal(e) => Resolved::Fatal(e),
                Resolved::OutOfFuel => Resolved::OutOfFuel,
            },
            other => other,
        }
    }
}

/// A failure in a prefix of the arguments is the failure of them all.
proof fn lemma_args_prefix_fatal(reg: Registry, args: Seq<Argument>, g: ContextM, n: int)
    requires
        0 <= n <= args.len(),
        op_args_spec(reg, args.take(n), g) is Fatal,
    ensures
        op_args_spec(reg, args, g) == op_args_spec(reg, args.take(n), g),
    decreases args.len() - n,
{
    if n < args.len() {
        assert(args.take(n + 1).drop_last() =~= args.take(n));
        lemma_args_prefix_fatal(reg, args, g, n + 1);
    } else {
        assert(args.take(n) =~= args);
    }
}

/// The host name of an operation; the `index`-th overload gets a suffix.
pub open spec fn op_name(name: Seq<char>, index: nat) -> Seq<char> {
    if index > 0 {
        host_name(name) + "_"@ + decimal(index)
    } else {
        host_name(name)
    }
}

/// An operation member: a method generic over what its arguments need,
/// which calls the operation and converts its result; the capability probe
/// for the operation named `getExtension`.
pub open spec fn operation_spec(reg: Registry, name: Seq<char>, index: nat, op: Operation) -> Resolved<
    Seq<char>,
> {
    if name == "getExtension"@ {
        Resolved::Done(probe_text())
    } else {
        match op_args_spec(reg, op.args@, ContextM::empty()) {
            Resolved::Done((rs, js, g)) => {
                let head = "\n\n    "@ + op.doc_comment@ + "pub fn "@ + op_name(name, index)
                    + g.params_text() + "(&self, "@ + join(rs, ", "@);
                match op.return_type {
                    Some(rt) => with_result(
                        res_outcome(reg, rt),
                        |a: ResM|
                            head + ") -> "@ + a.type_ + g.where_text() + " {\n        "@
                                + res_wrap_text(
                                a.wrapper,
                                "(js! { return @{self}."@ + name + "("@ + join(js, ", "@)
                                    + "); } )"@,
                            ) + "\n    }"@,
                    ),
                    None => Resolved::Done(
                        head + ")"@ + g.where_text() + " {\n        js!( @(no_return) @{self}."@
                            + name + "("@ + join(js, ", "@) + "); );\n    }"@,
                    ),
                }
            },
            Resolved::Fatal(e) => Resolved::Fatal(e),
            Resolved::OutOfFuel => Resolved::OutOfFuel,
        }
    }
}

/// Generate an operation member, the `index`-th of its name.
pub fn write_operation(name: &str, index: usize, operation: &Operation, registry: &Registry) -> (r:
    Result<String, GenError>)
    requires
        registry.wf(),
    ensures
        text_agrees(r, operation_spec(*registry, name@, index as nat, *operation)),
{
    if same_text(name, "getExtension") {
        return Ok(write_get_extension());
    }
    let mut rust_name = unreserve(snake(name));
    if index > 0 {
        rust_name = rust_name.concat("_").concat(decimal_text(index).as_str());
    }
    let mut gc = GenericContext::new();
    let mut rust_args: Vec<String> = Vec::new();
    let mut js_args: Vec<String> = Vec::new();
    let ghost args = operation.args@;
    let mut i: usize = 0;
    assert(texts(rust_args@) =~= Seq::empty());
    assert(texts(js_args@) =~= Seq::empty());
    assert(args.take(0) =~= Seq::empty());
    while i < operation.args.len()
        invariant
            registry.wf(),
            name@ != "getExtension"@,
            args == operation.args@,
            i <= args.len(),
            op_args_spec(*registry, args.take(i as int), ContextM::empty()) == Resolved::Done(
                (texts(rust_args@), texts(js_args@), gc@),
            ),
        decreases args.len() - i,
    {
        assert(args.take(i + 1).drop_last() =~= args.take(i as int));
        assert(args.take(i + 1).last() == args[i as int]);
        let a = &operation.args[i];
        let ghost before = gc@;
        match process_arg_type(&a.type_, registry, &mut gc) {
            Ok(p) => {
                let an = unreserve(snake(a.name.as_str()));
                let ghost rs = rust_args@;
                let ghost js = js_args@;
                rust_args.push(an.clone().concat(": ").concat(p.type_.as_str()));
                js_args.push(String::from_str("@{").concat(p.wrapper.wrap(an.as_str()).as_str()).concat("}"));
                assert(texts(rust_args@) =~= texts(rs).push(an@ + ": "@ + p.type_@));
                assert(texts(js_args@) =~= texts(js).push("@{"@ + arg_wrap_text(p.wrapper, an@) + "}"@));
            },
            Err(e) => {
                proof {
                    assert(op_args_spec(*registry, args.take(i + 1), ContextM::empty())
                        == Resolved::<(Seq<Seq<char>>, Seq<Seq<char>>, ContextM)>::Fatal(e));
                    lemma_args_prefix_fatal(*registry, args, ContextM::empty(), (i + 1) as int);
                }
                return Err(e);
            },
        }
        i = i + 1;
    }
    assert(args.take(i as int) =~= args);
    let ra = join_texts(&rust_args, ", ");
    let ja = join_texts(&js_args, ", ");
    let head = String::from_str("\n\n    ").concat(operation.doc_comment.as_str()).concat("pub fn ").concat(
        rust_name.as_str(),
    ).concat(gc.args().as_str()).concat("(&self, ").concat(ra.as_str());
    match &operation.return_type {
        Some(rt) => match process_result_type(rt, registry) {
            Ok(res) => {
                let call = String::from_str("(js! { return @{self}.").concat(name).concat("(").concat(
                    ja.as_str(),
                ).concat("); } )");
                let expr = res.wrapper.wrap(call.as_str());
                Ok(
                    head.concat(") -> ").concat(res.type_.as_str()).concat(gc.constraints().as_str()).concat(
                        " {\n        ",
                    ).concat(expr.as_str()).concat("\n    }"),
                )
            },
            Err(e) => Err(e),
        },
        None => Ok(
            head.concat(")").concat(gc.constraints().as_str()).concat(
                " {\n        js!( @(no_return) @{self}.",
            ).concat(name).concat("(").concat(ja.as_str()).concat("); );\n    }"),
        ),
    }
}

/// For every declared extension, the capability probe that any interface
/// generates answers an absent value, by the lenient conversion, where the
/// extension is not supported, rather than failing.
pub proof fn lemma_probe_is_lenient(reg: Registry, index: nat, op: Operation)
    ensures
        operation_spec(reg, "getExtension"@, index, op) == Resolved::Done(probe_text()),
        probe_expr() == "(js! { return @{self}.getExtension(@{E::NAME}); } )"@ + ".try_into().ok()"@,
{
}

/// One member of an interface, the `index`-th of its name; a constant or an
/// attribute has no overloads.
pub open spec fn member_spec(reg: Registry, name: Seq<char>, index: int, m: Member) -> Resolved<Seq<char>> {
    match m {
        Member::Const(c) => if index == 0 {
            const_spec(reg, name, c)
        } else {
            Resolved::Fatal(GenError::OverloadedMember)
        },
        Member::Attribute(a) => if index == 0 {
            attribute_spec(reg, name, a)
        } else {
            Resolved::Fatal(GenError::OverloadedMember)
        },
        Member::Operation(op) => operation_spec(reg, name, index as nat, op),
    }
}

/// The text of each member of one name.
pub open spec fn member_fn(reg: Registry, name: Seq<char>) -> spec_fn(int, Member) -> Resolved<Seq<char>> {
    |i: int, m: Member| member_spec(reg, name, i, m)
}

/// The text of each group of members of one name.
pub open spec fn group_fn(reg: Registry) -> spec_fn(int, MembersM) -> Resolved<Seq<char>> {
    |i: int, g: MembersM| concat_all(g.1@, member_fn(reg, g.0))
}

fn write_member(name: &str, index: usize, member: &Member, registry: &Registry) -> (r: Result<
    String,
    GenError,
>)
    requires
        registry.wf(),
    ensures
        text_agrees(r, member_spec(*registry, name@, index as int, *member)),
{
    match member {
        Member::Const(c) => if index == 0 {
            write_const(name, c, registry)
        } else {
            Err(GenError::OverloadedMember)
        },
        Member::Attribute(a) => if index == 0 {
            write_attribute(name, a, registry)
        } else {
            Err(GenError::OverloadedMember)
        },
        Member::Operation(op) => write_operation(name, index, op, registry),
    }
}

fn write_member_group(name: &str, members: &Vec<Member>, registry: &Registry) -> (r: Result<
    String,
    GenError,
>)
    requires
        registry.wf(),
    ensures
        text_agrees(r, concat_all(members@, member_fn(*registry, name@))),
{
    let mut out = String::new();
    let mut i: usize = 0;
    assert(members@.take(0) =~= Seq::empty());
    while i < members.len()
        invariant
            registry.wf(),
            i <= members@.len(),
            concat_all(members@.take(i as int), member_fn(*registry, name@)) == Resolved::Done(out@),
        decreases members@.len() - i,
    {
        assert(members@.take(i + 1).drop_last() =~= members@.take(i as int));
        assert(members@.take(i + 1).last() == members@[i as int]);
        match write_member(name, i, &members[i], registry) {
            Ok(t) => {
                out = out.concat(t.as_str());
            },
            Err(e) => {
                proof {
                    lemma_concat_prefix_fatal(members@, member_fn(*registry, name@), (i + 1) as int);
                }
                return Err(e);
            },
        }
        i = i + 1;
    }
    assert(members@.take(i as int) =~= members@);
    Ok(out)
}

fn write_members(groups: &Vec<(&String, &Vec<Member>)>, registry: &Registry) -> (r: Result<
    String,
    GenError,
>)
    requires
        registry.wf(),
    ensures
        text_agrees(r, concat_all(field_refs(groups@), group_fn(*registry))),
{
    let ghost gs = field_refs(groups@);
    let mut out = String::new();
    let mut i: usize = 0;
    assert(gs.take(0) =~= Seq::empty());
    while i < groups.len()
        invariant
            registry.wf(),
            gs == field_refs(groups@),
            i <= groups@.len(),
            concat_all(gs.take(i as int), group_fn(*registry)) == Resolved::Done(out@),
        decreases groups@.len() - i,
    {
        assert(gs.take(i + 1).drop_last() =~= gs.take(i as int));
        assert(gs.take(i + 1).last() == gs[i as int]);
        let (gname, gmembers) = groups[i];
        match write_member_group(gname.as_str(), gmembers, registry) {
            Ok(t) => {
                out = out.concat(t.as_str());
            },
            Err(e) => {
                proof {
                    lemma_concat_prefix_fatal(gs, group_fn(*registry), (i + 1) as int);
                }
                return Err(e);
            },
        }
        i = i + 1;
    }
    assert(gs.take(i as int) =~= gs);
    Ok(out)
}

/// The designated interface that stands for any of the rendering contexts.
pub open spec fn is_context_interface(name: Seq<char>) -> bool {
    name == "GLContext"@
}

/// The attribute that ties an interface with a backing class to it.
pub open spec fn class_attr(name: Seq<char>, has_class: bool) -> Seq<char> {
    if !is_context_interface(name) && has_class {
        "#[reference(instance_of = \""@ + name + "\")]\n"@
    } else {
        Seq::empty()
    }
}

/// The runtime check by which a handle is recognized as the interface:
/// one of the rendering contexts for the designated interface, nothing more
/// than the backing class where there is one, else any handle.
pub open spec fn instance_text(name: Seq<char>, has_class: bool) -> Seq<char> {
    if is_context_interface(name) {
        instance_impl(
            name,
            "reference"@,
            "[WebGLRenderingContext, WebGL2RenderingContext].includes(@{{reference}}.constructor)"@,
        )
    } else if has_class {
        Seq::empty()
    } else {
        instance_impl(name, "_reference"@, "true"@)
    }
}

pub open spec fn instance_impl(name: Seq<char>, param: Seq<char>, check: Seq<char>) -> Seq<char> {
    "\nimpl InstanceOf for "@ + name + " {\n    #[inline]\n    fn instance_of("@ + param
        + ": &Reference) -> bool {\n        js!(\n            return "@ + check
        + ";\n        ).try_into().unwrap()\n    }\n}\n"@
}

/// How a rendering context of this interface is had from a canvas.
pub open spec fn context_text(name: Seq<char>, rc: Option<String>) -> Seq<char> {
    match rc {
        Some(c) => "impl RenderingContext for "@ + name
            + " {\n    type Error = ConversionError;\n    fn from_canvas(canvas: &CanvasElement) -> Result<Self, ConversionError> {\n        js!(\n            return @{canvas}.getContext(\""@
            + c@ + "\");\n        ).try_into()\n    }\n}\n\n"@,
        None => Seq::empty(),
    }
}

/// An interface: an opaque handle with its members, its runtime check and,
/// for a rendering context, its construction from a canvas; nothing for a
/// hidden interface.
pub open spec fn interface_spec(reg: Registry, name: Seq<char>, i: Interface) -> Resolved<Seq<char>> {
    if i.is_hidden {
        Resolved::Done(Seq::empty())
    } else {
        match members_outcome(reg, i) {
            Resolved::Done(gs) => match concat_all(gs, group_fn(reg)) {
                Resolved::Done(body) => Resolved::Done(interface_text(name, i, body)),
                other => other,
            },
            Resolved::Fatal(e) => Resolved::Fatal(e),
            Resolved::OutOfFuel => Resolved::OutOfFuel,
        }
    }
}

/// The text of a visible interface around the text of its members.
pub open spec fn interface_text(name: Seq<char>, i: Interface, body: Seq<char>) -> Seq<char> {
    "\n"@ + i.doc_comment@ + "#[derive(Debug, Clone, ReferenceType)]\n"@ + class_attr(name, i.has_class)
        + "pub struct "@ + name + "(Reference);\n\nimpl "@ + name + " {\n"@ + body + "\n}\n\n"@
        + instance_text(name, i.has_class) + context_text(name, i.rendering_context)
}

fn write_instance_impl(name: &str, param: &str, check: &str) -> (r: String)
    ensures
        r@ == instance_impl(name@, param@, check@),
{
    String::from_str("\nimpl InstanceOf for ").concat(name).concat(
        " {\n    #[inline]\n    fn instance_of(",
    ).concat(param).concat(": &Reference) -> bool {\n        js!(\n            return ").concat(
        check,
    ).concat(";\n        ).try_into().unwrap()\n    }\n}\n")
}

/// Generate an interface.
pub fn write_interface(name: &str, interface: &Interface, registry: &Registry) -> (r: Result<
    String,
    GenError,
>)
    requires
        registry.wf(),
    ensures
        text_agrees(r, interface_spec(*registry, name@, *interface)),
{
    if interface.is_hidden {
        return Ok(String::new());
    }
    let is_context = same_text(name, "GLContext");
    let attrs = if !is_context && interface.has_class {
        String::from_str("#[reference(instance_of = \"").concat(name).concat("\")]\n")
    } else {
        String::new()
    };
    let groups = match interface.collect_members(registry) {
        Ok(g) => g,
        Err(e) => {
            return Err(e);
        },
    };
    let body = match write_members(&groups, registry) {
        Ok(t) => t,
        Err(e) => {
            return Err(e);
        },
    };
    let instance = if is_context {
        write_instance_impl(
            name,
            "reference",
            "[WebGLRenderingContext, WebGL2RenderingContext].includes(@{{reference}}.constructor)",
        )
    } else if interface.has_class {
        String::new()
    } else {
        write_instance_impl(name, "_reference", "true")
    };
    let context = match &interface.rendering_context {
        Some(c) => String::from_str("impl RenderingContext for ").concat(name).concat(
            " {\n    type Error = ConversionError;\n    fn from_canvas(canvas: &CanvasElement) -> Result<Self, ConversionError> {\n        js!(\n            return @{canvas}.getContext(\"",
        ).concat(c.as_str()).concat("\");\n        ).try_into()\n    }\n}\n\n"),
        None => String::new(),
    };
    Ok(
        String::from_str("\n").concat(interface.doc_comment.as_str()).concat(
            "#[derive(Debug, Clone, ReferenceType)]\n",
        ).concat(attrs.as_str()).concat("pub struct ").concat(name).concat(
            "(Reference);\n\nimpl ",
        ).concat(name).concat(" {\n").concat(body.as_str()).concat("\n}\n\n").concat(
            instance.as_str(),
        ).concat(context.as_str()),
    )
}

/// The text of one registered entry among the type aliases.
pub open spec fn typedef_fn(reg: Registry) -> spec_fn(int, (String, NamedType)) -> Resolved<Seq<char>> {
    |i: int, e: (String, NamedType)|
        match e.1 {
            NamedType::Typedef(t) => typedef_spec(reg, e.0@, t),
            _ => Resolved::Done(Seq::empty()),
        }
}

/// Generate the type aliases, in the order of the registry.
pub fn write_typedefs(registry: &Registry) -> (r: Result<String, GenError>)
    requires
        registry.wf(),
    ensures
        text_agrees(r, concat_all(registry.types@, typedef_fn(*registry))),
{
    let mut out = String::new();
    let mut i: usize = 0;
    assert(registry.types@.take(0) =~= Seq::empty());
    while i < registry.types.len()
        invariant
            registry.wf(),
            i <= registry.types@.len(),
            concat_all(registry.types@.take(i as int), typedef_fn(*registry)) == Resolved::Done(out@),
        decreases registry.types@.len() - i,
    {
        assert(registry.types@.take(i + 1).drop_last() =~= registry.types@.take(i as int));
        assert(registry.types@.take(i + 1).last() == registry.types@[i as int]);
        let item = match &registry.types[i].1 {
            NamedType::Typedef(t) => write_typedef(registry.types[i].0.as_str(), t, registry),
            _ => Ok(String::new()),
        };
        match item {
            Ok(t) => {
                out = out.concat(t.as_str());
            },
            Err(e) => {
                proof {
                    lemma_concat_prefix_fatal(registry.types@, typedef_fn(*registry), (i + 1) as int);
                }
                return Err(e);
            },
        }
        i = i + 1;
    }
    assert(registry.types@.take(i as int) =~= registry.types@);
    Ok(out)
}

/// The text of one registered entry among the enumerations.
pub open spec fn enum_fn(reg: Registry) -> spec_fn(int, (String, NamedType)) -> Resolved<Seq<char>> {
    |i: int, e: (String, NamedType)|
        match e.1 {
            NamedType::Enum(en) => Resolved::Done(enum_spec(e.0@, en)),
            _ => Resolved::Done(Seq::empty()),
        }
}

/// Generate the enumerations, in the order of the registry.
pub fn write_enums(registry: &Registry) -> (r: Result<String, GenError>)
    requires
        registry.wf(),
    ensures
        text_agrees(r, concat_all(registry.types@, enum_fn(*registry))),
{
    let mut out = String::new();
    let mut i: usize = 0;
    assert(registry.types@.take(0) =~= Seq::empty());
    while i < registry.types.len()
        invariant
            registry.wf(),
            i <= registry.types@.len(),
            concat_all(registry.types@.take(i as int), enum_fn(*registry)) == Resolved::Done(out@),
        decreases registry.types@.len() - i,
    {
        assert(registry.types@.take(i + 1).drop_last() =~= registry.types@.take(i as int));
        assert(registry.types@.take(i + 1).last() == registry.types@[i as int]);
        let item = match &registry.types[i].1 {
            NamedType::Enum(en) => Ok(write_enum(registry.types[i].0.as_str(), en)),
            _ => Ok(String::new()),
        };
        match item {
            Ok(t) => {
                out = out.concat(t.as_str());
            },
            Err(e) => {
                proof {
                    lemma_concat_prefix_fatal(registry.types@, enum_fn(*registry), (i + 1) as int);
                }
                return Err(e);
            },
        }
        i = i + 1;
    }
    assert(registry.types@.take(i as int) =~= registry.types@);
    Ok(out)
}

/// The text of one registered entry among the dictionaries.
pub open spec fn dictionary_fn(reg: Registry) -> spec_fn(int, (String, NamedType)) -> Resolved<Seq<char>> {
    |i: int, e: (String, NamedType)|
        match e.1 {
            NamedType::Dictionary(d) => dictionary_spec(reg, e.0@, d),
            _ => Resolved::Done(Seq::empty()),
        }
}

/// Generate the dictionaries, in the order of the registry.
pub fn write_dictionaries(registry: &Registry) -> (r: Result<String, GenError>)
    requires
        registry.wf(),
    ensures
        text_agrees(r, concat_all(registry.types@, dictionary_fn(*registry))),
{
    let mut out = String::new();
    let mut i: usize = 0;
    assert(registry.types@.take(0) =~= Seq::empty());
    while i < registry.types.len()
        invariant
            registry.wf(),
            i <= registry.types@.len(),
            concat_all(registry.types@.take(i as int), dictionary_fn(*registry)) == Resolved::Done(out@),
        decreases registry.types@.len() - i,
    {
        assert(registry.types@.take(i + 1).drop_last() =~= registry.types@.take(i as int));
        assert(registry.types@.take(i + 1).last() == registry.types@[i as int]);
        let item = match &registry.types[i].1 {
            NamedType::Dictionary(d) => write_dictionary(registry.types[i].0.as_str(), d, registry),
            _ => Ok(String::new()),
        };
        match item {
            Ok(t) => {
                out = out.concat(t.as_str());
            },
            Err(e) => {
                proof {
                    lemma_concat_prefix_fatal(registry.types@, dictionary_fn(*registry), (i + 1) as int);
                }
                return Err(e);
            },
        }
        i = i + 1;
    }
    assert(registry.types@.take(i as int) =~= registry.types@);
    Ok(out)
}

/// The text of one registered entry among the interfaces.
pub open spec fn interface_fn(reg: Registry) -> spec_fn(int, (String, NamedType)) -> Resolved<Seq<char>> {
    |i: int, e: (String, NamedType)|
        match e.1 {
            NamedType::Interface(it) => interface_spec(reg, e.0@, it),
            _ => Resolved::Done(Seq::empty()),
        }
}

/// Generate the interfaces, in the order of the registry.
pub fn write_interfaces(registry: &Registry) -> (r: Result<String, GenError>)
    requires
        registry.wf(),
    ensures
        text_agrees(r, concat_all(registry.types@, interface_fn(*registry))),
{
    let mut out = String::new();
    let mut i: usize = 0;
    assert(registry.types@.take(0) =~= Seq::empty());
    while i < registry.types.len()
        invariant
            registry.wf(),
            i <= registry.types@.len(),
            concat_all(registry.types@.take(i as int), interface_fn(*registry)) == Resolved::Done(out@),
        decreases registry.types@.len() - i,
    {
        assert(registry.types@.take(i + 1).drop_last() =~= registry.types@.take(i as int));
        assert(registry.types@.take(i + 1).last() == registry.types@[i as int]);
        let item = match &registry.types[i].1 {
            NamedType::Interface(it) => write_interface(registry.types[i].0.as_str(), it, registry),
            _ => Ok(String::new()),
        };
        match item {
            Ok(t) => {
                out = out.concat(t.as_str());
            },
            Err(e) => {
                proof {
                    lemma_concat_prefix_fatal(registry.types@, interface_fn(*registry), (i + 1) as int);
                }
                return Err(e);
            },
        }
        i = i + 1;
    }
    assert(registry.types@.take(i as int) =~= registry.types@);
    Ok(out)
}

/// The markers of the declared extensions, in order.
pub open spec fn extensions_spec(names: Seq<String>) -> Seq<char>
    decreases names.len(),
{
    if names.len() == 0 {
        Seq::empty()
    } else {
        extensions_spec(names.drop_last()) + extension_spec(names.last()@)
    }
}

/// Generate the markers of the declared extensions.
pub fn write_extensions(registry: &Registry) -> (r: String)
    ensures
        r@ == extensions_spec(registry.extensions@),
{
    let mut out = String::new();
    let mut i: usize = 0;
    assert(registry.extensions@.take(0) =~= Seq::empty());
    while i < registry.extensions.len()
        invariant
            i <= registry.extensions@.len(),
            out@ == extensions_spec(registry.extensions@.take(i as int)),
        decreases registry.extensions@.len() - i,
    {
        assert(registry.extensions@.take(i + 1).drop_last() =~= registry.extensions@.take(i as int));
        out = out.concat(write_extension(registry.extensions[i].as_str()).as_str());
        i = i + 1;
    }
    assert(registry.extensions@.take(i as int) =~= registry.extensions@);
    out
}

/// `a` followed by `b`; the first failure, if any.
pub open spec fn then(a: Resolved<Seq<char>>, b: Resolved<Seq<char>>) -> Resolved<Seq<char>> {
    match a {
        Resolved::Done(t) => match b {
            Resolved::Done(u) => Resolved::Done(t + u),
            other => other,
        },
        other => other,
    }
}

/// The bindings of a whole registry, in this order: type aliases,
/// enumerations, dictionaries, interfaces, extension markers.
pub open spec fn registry_spec(reg: Registry) -> Resolved<Seq<char>> {
    then(
        then(
            then(
                then(
                    concat_all(reg.types@, typedef_fn(reg)),
                    concat_all(reg.types@, enum_fn(reg)),
                ),
                concat_all(reg.types@, dictionary_fn(reg)),
            ),
            concat_all(reg.types@, interface_fn(reg)),
        ),
        Resolved::Done(extensions_spec(reg.extensions@)),
    )
}

/// The generator of bindings for the stdweb host interop convention.
#[derive(Debug)]
pub struct StdwebGenerator;

impl StdwebGenerator {
    /// Generate the bindings of a whole registry, or the first fatal
    /// configuration error met.
    pub fn generate(&self, registry: &Registry) -> (r: Result<String, GenError>)
        requires
            registry.wf(),
        ensures
            text_agrees(r, registry_spec(*registry)),
    {
        let typedefs = match write_typedefs(registry) {
            Ok(t) => t,
            Err(e) => {
                return Err(e);
            },
        };
        let enums = match write_enums(registry) {
            Ok(t) => t,
            Err(e) => {
                return Err(e);
            },
        };
        let dictionaries = match write_dictionaries(registry) {
            Ok(t) => t,
            Err(e) => {
                return Err(e);
            },
        };
        let interfaces = match write_interfaces(registry) {
            Ok(t) => t,
            Err(e) => {
                return Err(e);
            },
        };
        let extensions = write_extensions(registry);
        Ok(
            typedefs.concat(enums.as_str()).concat(dictionaries.as_str()).concat(
                interfaces.as_str(),
            ).concat(extensions.as_str()),
        )
    }
}

} // verus!
