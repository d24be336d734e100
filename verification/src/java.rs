//! The Java synthesizer: a CDK stack class in Java from a template's
//! intermediate representation.
use vstd::prelude::*;
use crate::code::{line_of, nl, opt_view, plain_layout, rendered, CodeBuffer, IndentOptions, Layout, Piece};
use crate::debug::ir_debug;
use crate::emit::{
    can_emit, can_emit_entries, emit_java, emit_property_entries, entries_java_ok, java_ok, java_pieces,
    property_entries,
};
use crate::expr::{condition_text, emit_conditions, ind1, ind2};
use crate::ir::{
    CloudformationProgramIr, ConditionInstruction, ConditionIr, ConstructorParameter, ImportInstruction, MappingInnerValue,
    MappingInstruction, OutputInstruction, ResourceInstruction, ResourceIr,
};
use crate::text::{
    alphanumeric_only, bool_string, bool_text, camel_case, concat, contains, debug_text, i64_text, int_text, join,
    join_text, keep_alphanumeric, owned, pascal_case, repeat, repeat_text, seq_contains, spec_camel_case,
    spec_debug_text, spec_pascal_case, spec_to_lowercase, text_eq, to_lowercase, views,
};

verus! {

/// The Java synthesizer, with the package its classes are put in.
pub struct Java {
    package_name: String,
}

/// A parameter of the generated stack's constructor, with its Java type.
pub struct JavaConstructorParameter {
    pub name: String,
    pub description: Option<String>,
    pub constructor_type: String,
    pub java_type: String,
    pub default_value: Option<String>,
}

/// A resource of the generated stack (carries nothing yet).
pub struct JavaResourceInstruction {}

/// The model of a constructor parameter.
pub struct ParamModel {
    pub name: Seq<char>,
    pub description: Option<Seq<char>>,
    pub constructor_type: Seq<char>,
    pub java_type: Seq<char>,
    pub default_value: Option<Seq<char>>,
}

/// The model of a `JavaConstructorParameter`.
pub open spec fn param_model(p: JavaConstructorParameter) -> ParamModel {
    ParamModel {
        name: p.name@,
        description: opt_view(p.description),
        constructor_type: p.constructor_type@,
        java_type: p.java_type@,
        default_value: opt_view(p.default_value),
    }
}

/// The models of constructor parameters.
pub open spec fn param_models(s: Seq<JavaConstructorParameter>) -> Seq<ParamModel> {
    s.map_values(|p: JavaConstructorParameter| param_model(p))
}

/// The Java type of a template parameter's type: `List<Number>` stays,
/// other list types become `String[]`, everything else `String`.
pub open spec fn java_type_text(constructor_type: Seq<char>) -> Seq<char> {
    if constructor_type == "List<Number>"@ {
        "List<Number>"@
    } else if seq_contains(constructor_type, "List"@) {
        "String[]"@
    } else {
        "String"@
    }
}

/// The Java constructor parameter made from a template parameter.
pub open spec fn param_of_input(c: ConstructorParameter) -> ParamModel {
    ParamModel {
        name: c.name@,
        description: opt_view(c.description),
        constructor_type: c.constructor_type@,
        java_type: java_type_text(c.constructor_type@),
        default_value: opt_view(c.default_value),
    }
}

/// The Java constructor parameters of a template.
pub open spec fn params_of(ir: CloudformationProgramIr) -> Seq<ParamModel> {
    ir.constructor.inputs@.map_values(|c: ConstructorParameter| param_of_input(c))
}

// ---------------------------------------------------------------------------
// Header
// ---------------------------------------------------------------------------

/// The package declaration and the imports every stack needs.
pub open spec fn header_pieces(package: Seq<char>) -> Seq<Piece> {
    line_of("package "@ + package + ";"@) + seq![Piece::Text(nl())] + line_of(
        "import software.constructs.Construct;"@,
    ) + seq![Piece::Text(nl())] + line_of("import java.util.*;"@) + line_of("import software.amazon.awscdk.*;"@)
        + line_of("import software.amazon.awscdk.CfnMapping;"@) + line_of("import software.amazon.awscdk.CfnTag;"@)
        + line_of("import software.amazon.awscdk.Stack;"@) + line_of("import software.amazon.awscdk.StackProps;"@)
}

// ---------------------------------------------------------------------------
// Mappings
// ---------------------------------------------------------------------------

/// The Java expression of a mapping value.
pub open spec fn mapping_value_text(v: MappingInnerValue) -> Seq<char> {
    match v {
        MappingInnerValue::Number(n) => int_text(n as int),
        MappingInnerValue::Bool(b) => bool_text(b),
        MappingInnerValue::String(s) => spec_debug_text(s@),
        MappingInnerValue::List(items) => "Arrays.asList(\""@ + join_text(views(items@), "\", \""@) + "\")"@,
        MappingInnerValue::Float(t) => t@,
    }
}

/// The `setValue` calls for the second-level entries under `key1`.
pub open spec fn mapping_inner_rows(
    name: Seq<char>,
    key1: Seq<char>,
    s: Seq<(String, MappingInnerValue)>,
) -> Seq<Piece>
    decreases s.len(),
{
    if s.len() == 0 {
        Seq::empty()
    } else {
        mapping_inner_rows(name, key1, s.drop_last()) + seq![
            Piece::Text(name + ".setValue(\""@ + key1 + "\", \""@ + s.last().0@ + "\", "@),
            Piece::Text(mapping_value_text(s.last().1)),
            Piece::Text(");\n"@),
        ]
    }
}

/// The `setValue` calls of a mapping.
pub open spec fn mapping_rows(name: Seq<char>, s: Seq<(String, Vec<(String, MappingInnerValue)>)>) -> Seq<Piece>
    decreases s.len(),
{
    if s.len() == 0 {
        Seq::empty()
    } else {
        mapping_rows(name, s.drop_last()) + mapping_inner_rows(name, s.last().0@, s.last().1@)
    }
}

/// A mapping whose variable is `name`: its `CfnMapping` declaration, its
/// values and a blank line.
pub open spec fn named_mapping_pieces(m: MappingInstruction, name: Seq<char>) -> Seq<Piece> {
    line_of("final CfnMapping "@ + name + " = new CfnMapping(this, \""@ + name + "\");"@) + mapping_rows(name, m.map@)
        + seq![Piece::Text(nl())]
}

/// A mapping, under the camel-case form of its name.
pub open spec fn mapping_pieces(m: MappingInstruction) -> Seq<Piece> {
    named_mapping_pieces(m, spec_camel_case(m.name@))
}

/// The mappings, one after another.
pub open spec fn mappings_pieces(s: Seq<MappingInstruction>) -> Seq<Piece>
    decreases s.len(),
{
    if s.len() == 0 {
        Seq::empty()
    } else {
        mappings_pieces(s.drop_last()) + mapping_pieces(s.last())
    }
}

/// The mappings section: nothing when there are none.
pub open spec fn write_mappings_pieces(ir: CloudformationProgramIr) -> Seq<Piece> {
    if ir.mappings@.len() == 0 {
        Seq::empty()
    } else {
        line_of("// Mappings"@) + mappings_pieces(ir.mappings@)
    }
}

// ---------------------------------------------------------------------------
// Constructors
// ---------------------------------------------------------------------------

/// A constructor block of the stack class, with the given signature.
pub open spec fn ctor_layout(signature: Seq<char>) -> Layout {
    Layout { indent: ind1(), leading: Some(signature), trailing: Some("}"@), trailing_newline: true }
}

/// The signature of the constructor without properties.
pub open spec fn short_ctor(stack: Seq<char>) -> Seq<char> {
    "public "@ + stack + "(final Construct scope, final String id) {"@
}

/// The signature of the constructor with stack properties.
pub open spec fn props_ctor(stack: Seq<char>) -> Seq<char> {
    "public "@ + stack + "(final Construct scope, final String id, final StackProps props) {"@
}

/// The first line of the constructor with every parameter.
pub open spec fn full_ctor(stack: Seq<char>) -> Seq<char> {
    "public "@ + stack + "(final Construct scope, final String id, final StackProps props,"@
}

/// The parameter lines of the full constructor, each in a block of its own;
/// the last of `total` parameters closes the parameter list.
pub open spec fn param_lines(s: Seq<ParamModel>, total: nat) -> Seq<Piece>
    decreases s.len(),
{
    if s.len() == 0 {
        Seq::empty()
    } else {
        let p = s.last();
        let end = if s.len() == total {
            ") {"@
        } else {
            ","@
        };
        param_lines(s.drop_last(), total) + seq![Piece::Open(plain_layout(ind1()))] + line_of(
            p.java_type + " "@ + p.name + end,
        ) + seq![Piece::Close]
    }
}

/// The constructors of the stack class. With parameters, the block of the
/// full constructor is left open for its body; without, that of the
/// constructor with stack properties.
pub open spec fn stack_definition_pieces(props: Seq<ParamModel>, stack: Seq<char>) -> Seq<Piece> {
    seq![Piece::Open(ctor_layout(short_ctor(stack)))] + line_of("super(scope, id, null);"@) + seq![
        Piece::Close,
        Piece::Text(nl()),
        Piece::Open(ctor_layout(props_ctor(stack))),
    ] + if props.len() == 0 {
        line_of("super(scope, id, props);"@)
    } else {
        line_of("this(scope, id, props"@ + repeat_text(", null"@, props.len()) + ");"@) + seq![
            Piece::Close,
            Piece::Text(nl()),
            Piece::Open(ctor_layout(full_ctor(stack))),
        ] + param_lines(props, props.len()) + line_of("super(scope, id, props);"@) + seq![Piece::Text(nl())]
    }
}

/// The lines that set a constructor parameter to its default: a template
/// parameter of an AWS type gets a `CfnParameter` when the argument is
/// null; any other parameter with a default gets the default string.
pub open spec fn prop_pieces(p: ParamModel) -> Seq<Piece> {
    match p.default_value {
        None => seq![Piece::Text(nl())],
        Some(v) => if seq_contains(p.constructor_type, "AWS::"@) {
            let value_as = if seq_contains(p.constructor_type, "List"@) {
                "getValueAsList"@
            } else {
                "getValueAsString"@
            };
            seq![
                Piece::Open(
                    Layout {
                        indent: ind2(),
                        leading: Some(p.name + " = Optional.ofNullable("@ + p.name + ").isPresent()"@),
                        trailing: None,
                        trailing_newline: true,
                    },
                ),
            ] + line_of("? "@ + p.name) + seq![
                Piece::Open(
                    Layout {
                        indent: ind2(),
                        leading: Some(": CfnParameter.Builder.create(this, \""@ + spec_pascal_case(p.name) + "\")"@),
                        trailing: None,
                        trailing_newline: false,
                    },
                ),
            ] + line_of(".type(\""@ + p.constructor_type + "\")"@) + line_of(".defaultValue(\""@ + v + "\")"@)
                + line_of(".build()"@) + line_of("."@ + value_as + "();"@) + seq![Piece::Close, Piece::Close]
        } else {
            line_of(
                p.name + " = Optional.ofNullable("@ + p.name + ").isPresent() ? "@ + p.name + "\n"@ + ind2() + ": \""@ + v
                    + "\";"@,
            )
        },
    }
}

/// The default-setting lines of all constructor parameters.
pub open spec fn props_pieces(s: Seq<ParamModel>) -> Seq<Piece>
    decreases s.len(),
{
    if s.len() == 0 {
        Seq::empty()
    } else {
        props_pieces(s.drop_last()) + prop_pieces(s.last())
    }
}

// ---------------------------------------------------------------------------
// Resources
// ---------------------------------------------------------------------------

/// The Java variable name of a resource: its camel-case name without the
/// characters that are not alphanumeric.
pub open spec fn name_text(key: Seq<char>) -> Seq<char> {
    alphanumeric_only(spec_camel_case(key))
}

/// The first line of a resource's declaration, with the variable name
/// `var` and, for a resource under a condition, the camel-case form `cc`
/// of the condition's name.
pub open spec fn declaration_text(r: ResourceInstruction, var: Seq<char>, cc: Seq<char>) -> Seq<char> {
    let class = r.resource_type.name@;
    match r.condition {
        Some(_) => "Optional<Cfn"@ + class + "> "@ + var + " = "@ + cc + " ? Optional.of(Cfn"@ + class
            + ".Builder.create(this, \""@ + r.name@ + "\")"@,
        None => "Cfn"@ + class + " "@ + var + " = Cfn"@ + class + ".Builder.create(this, \""@ + r.name@ + "\")"@,
    }
}

/// The declaration of a resource and its builder's setters; a resource
/// under a condition is an `Optional` that is empty when the condition is
/// false.
pub open spec fn resource_pieces(r: ResourceInstruction) -> Seq<Piece> {
    let class = r.resource_type.name@;
    let res_name = r.name@;
    match r.condition {
        Some(cond) => line_of(declaration_text(r, name_text(res_name), spec_camel_case(cond@))) + seq![
            Piece::Open(plain_layout(ind2())),
        ] + property_entries(r.properties@, Some(class)) + line_of(".build()) : Optional.empty();"@) + seq![
            Piece::Close,
        ],
        None => line_of(declaration_text(r, name_text(res_name), Seq::empty())) + seq![
            Piece::Open(plain_layout(ind2())),
        ] + property_entries(r.properties@, Some(class)) + line_of(".build();"@) + seq![Piece::Close],
    }
}

/// How attribute statements name a resource whose variable is `cc`: the
/// value inside the `Optional` of a resource that may be undefined.
pub open spec fn target_text(cc: Seq<char>, maybe_undefined: bool) -> Seq<char> {
    if maybe_undefined {
        cc + ".ifPresent(_"@ + cc + " -> _"@ + cc
    } else {
        cc
    }
}

/// How the attribute statements of a resource name it.
pub open spec fn attribute_target(name: Seq<char>, maybe_undefined: bool) -> Seq<char> {
    target_text(spec_camel_case(name), maybe_undefined)
}

/// How the attribute statements of a resource end.
pub open spec fn attribute_trailer(maybe_undefined: bool) -> Seq<char> {
    if maybe_undefined {
        ");\n"@
    } else {
        ";\n"@
    }
}

/// The `addMetadata` statements of metadata entries.
pub open spec fn metadata_entries(s: Seq<(String, ResourceIr)>, target: Seq<char>, trailer: Seq<char>) -> Seq<Piece>
    decreases s.len(),
{
    if s.len() == 0 {
        Seq::empty()
    } else {
        metadata_entries(s.drop_last(), target, trailer) + seq![
            Piece::Text(target + ".addMetadata(\""@ + s.last().0@ + "\", "@),
        ] + java_pieces(s.last().1, None) + seq![Piece::Text(")"@ + trailer)]
    }
}

/// The metadata statements of a resource: one per entry of an object, or
/// the value in a comment when it is not an object.
pub open spec fn metadata_pieces(metadata: Option<ResourceIr>, target: Seq<char>, trailer: Seq<char>) -> Seq<Piece> {
    match metadata {
        Some(m) => match m {
            ResourceIr::Object(_, entries) => metadata_entries(entries@, target, trailer),
            _ => line_of("/* "@ + ir_debug(m) + " */"@),
        },
        None => Seq::empty(),
    }
}

/// The `addDependency` statements of a resource.
pub open spec fn dependency_pieces(s: Seq<String>, target: Seq<char>, trailer: Seq<char>) -> Seq<Piece>
    decreases s.len(),
{
    if s.len() == 0 {
        Seq::empty()
    } else {
        dependency_pieces(s.drop_last(), target, trailer) + seq![
            Piece::Text(target + ".addDependency("@ + spec_to_lowercase(s.last()@) + ")"@ + trailer),
        ]
    }
}

/// The statements that set a resource's metadata, dependencies, removal
/// policy and update policy, and a blank line after them when there are
/// any.
pub open spec fn attribute_pieces(r: ResourceInstruction, maybe_undefined: bool) -> Seq<Piece> {
    let target = attribute_target(r.name@, maybe_undefined);
    let trailer = attribute_trailer(maybe_undefined);
    metadata_pieces(r.metadata, target, trailer) + dependency_pieces(r.dependencies@, target, trailer)
        + policy_pieces(r, target, trailer) + (if r.metadata is Some || r.dependencies@.len() > 0 || r.deletion_policy is Some || r.update_policy is Some {
        seq![Piece::Text(nl())]
    } else {
        Seq::empty()
    })
}

/// The removal-policy and update-policy statements of a resource.
pub open spec fn policy_pieces(r: ResourceInstruction, target: Seq<char>, trailer: Seq<char>) -> Seq<Piece> {
    (match r.deletion_policy {
        Some(dp) => seq![Piece::Text(target + ".applyRemovalPolicy(RemovalPolicy."@ + dp@ + ")"@ + trailer)],
        None => Seq::empty(),
    }) + (match r.update_policy {
        Some(u) => seq![Piece::Text(target + ".getCfnOptions().setUpdatePolicy("@)] + java_pieces(u, None) + seq![
            Piece::Text(")"@ + trailer),
        ],
        None => Seq::empty(),
    })
}

/// Every resource, followed by a blank line and its attribute statements.
pub open spec fn resources_pieces(s: Seq<ResourceInstruction>) -> Seq<Piece>
    decreases s.len(),
{
    if s.len() == 0 {
        Seq::empty()
    } else {
        resources_pieces(s.drop_last()) + resource_pieces(s.last()) + seq![Piece::Text(nl())] + attribute_pieces(
            s.last(),
            s.last().condition is Some,
        )
    }
}

/// A resource's attribute statements can be written: its metadata entries
/// and update policy need no resource class.
pub open spec fn attributes_ok(r: ResourceInstruction) -> bool {
    &&& match r.metadata {
        Some(m) => match m {
            ResourceIr::Object(_, entries) => entries_java_ok(entries@, false),
            _ => true,
        },
        None => true,
    }
    &&& match r.update_policy {
        Some(u) => java_ok(u, false),
        None => true,
    }
}

/// A resource can be written: its properties with its class at hand, and
/// its attribute statements.
pub open spec fn resource_ok(r: ResourceInstruction) -> bool {
    &&& entries_java_ok(r.properties@, true)
    &&& attributes_ok(r)
}

// ---------------------------------------------------------------------------
// Conditions
// ---------------------------------------------------------------------------

/// The declaration of a condition's `Boolean` variable, named `cc`.
pub open spec fn condition_declaration_text(cc: Seq<char>, value: ConditionIr) -> Seq<char> {
    "Boolean "@ + cc + " = "@ + condition_text(value) + ";"@
}

/// A `Boolean` variable per condition.
pub open spec fn condition_lines(s: Seq<ConditionInstruction>) -> Seq<Piece>
    decreases s.len(),
{
    if s.len() == 0 {
        Seq::empty()
    } else {
        condition_lines(s.drop_last()) + line_of(
            condition_declaration_text(spec_camel_case(s.last().name@), s.last().value),
        )
    }
}

// ---------------------------------------------------------------------------
// Outputs
// ---------------------------------------------------------------------------

/// The Java type of an output field: `Optional<Object>` for an output under
/// a condition, else `Object`.
pub open spec fn field_type_text(conditional: bool) -> Seq<char> {
    if conditional {
        "Optional<Object>"@
    } else {
        "Object"@
    }
}

/// A private field per output.
pub open spec fn output_field_lines(s: Seq<OutputInstruction>) -> Seq<Piece>
    decreases s.len(),
{
    if s.len() == 0 {
        Seq::empty()
    } else {
        output_field_lines(s.drop_last()) + line_of(
            field_line_text(s.last().condition is Some, spec_camel_case(s.last().name@)),
        )
    }
}

/// The getter of an output field: its signature with the Pascal-case name
/// `pc`, and the line returning the field with the camel-case name `cc`.
pub open spec fn getter_pieces(conditional: bool, pc: Seq<char>, cc: Seq<char>) -> Seq<Piece> {
    seq![
        Piece::Open(
            Layout {
                indent: ind1(),
                leading: Some("public "@ + field_type_text(conditional) + " get"@ + pc + "() {"@),
                trailing: Some("}\n"@),
                trailing_newline: true,
            },
        ),
    ] + line_of("return this."@ + cc + ";"@) + seq![Piece::Close]
}

/// A getter per output.
pub open spec fn output_getters(s: Seq<OutputInstruction>) -> Seq<Piece>
    decreases s.len(),
{
    if s.len() == 0 {
        Seq::empty()
    } else {
        let o = s.last();
        output_getters(s.drop_last()) + getter_pieces(
            o.condition is Some,
            spec_pascal_case(o.name@),
            spec_camel_case(o.name@),
        )
    }
}

/// The field line of an output, with the camel-case name `cc`.
pub open spec fn field_line_text(conditional: bool, cc: Seq<char>) -> Seq<char> {
    "private "@ + field_type_text(conditional) + " "@ + cc + ";\n"@
}

/// The fields of the outputs, then their getters.
pub open spec fn output_field_pieces(s: Seq<OutputInstruction>) -> Seq<Piece> {
    output_field_lines(s) + output_getters(s)
}

/// The statements of one output: the field's value, and a `CfnOutput`
/// (only when the value is present, for an output under a condition) with
/// its description and export name when there are any.
pub open spec fn output_pieces(o: OutputInstruction) -> Seq<Piece> {
    output_head_pieces(o) + (match o.description {
        Some(d) => line_of(".description(\""@ + d@ + "\")"@),
        None => Seq::empty(),
    }) + (match o.export {
        Some(e) => seq![Piece::Text(".exportName("@)] + java_pieces(e, None) + seq![Piece::Text(")\n"@)],
        None => Seq::empty(),
    }) + seq![Piece::Close, Piece::Text(nl())]
}

/// The assignment of an output's field, whose variable is `var`, and the
/// opening of its `CfnOutput` builder with the value; `cc` is the variable
/// of the output's condition.
pub open spec fn named_output_head_pieces(o: OutputInstruction, var: Seq<char>, cc: Seq<char>) -> Seq<Piece> {
    match o.condition {
        None => seq![Piece::Text("this."@ + var + " = "@)] + java_pieces(o.value, None) + seq![
            Piece::Text(";\n"@),
            Piece::Open(
                Layout {
                    indent: ind2(),
                    leading: Some("CfnOutput.Builder.create(this, \""@ + o.name@ + "\")"@),
                    trailing: Some(ind2() + ".build();"@),
                    trailing_newline: true,
                },
            ),
        ] + line_of(".value(this."@ + var + ".toString())"@),
        Some(_) => seq![Piece::Text("this."@ + var + " = "@ + cc + " ? "@)] + java_pieces(
            o.value,
            None,
        ) + seq![
            Piece::Text(" : Optional.empty();\n"@),
            Piece::Open(
                Layout {
                    indent: ind2(),
                    leading: Some(
                        "this."@ + var + ".ifPresent(_"@ + var + " -> CfnOutput.Builder.create(this, \""@ + o.name@
                            + "\")"@,
                    ),
                    trailing: Some(ind2() + ".build());"@),
                    trailing_newline: true,
                },
            ),
        ] + line_of(".value(_"@ + var + ".toString())"@),
    }
}

/// The assignment of an output's field and the opening of its `CfnOutput`
/// builder with the value.
pub open spec fn output_head_pieces(o: OutputInstruction) -> Seq<Piece> {
    named_output_head_pieces(
        o,
        spec_camel_case(o.name@),
        match o.condition {
            Some(c) => spec_camel_case(c@),
            None => Seq::empty(),
        },
    )
}

/// The statements of every output.
pub open spec fn outputs_pieces(s: Seq<OutputInstruction>) -> Seq<Piece>
    decreases s.len(),
{
    if s.len() == 0 {
        Seq::empty()
    } else {
        outputs_pieces(s.drop_last()) + output_pieces(s.last())
    }
}

/// An output can be written: its value and export name need no resource
/// class.
pub open spec fn output_ok(o: OutputInstruction) -> bool {
    &&& java_ok(o.value, false)
    &&& match o.export {
        Some(e) => java_ok(e, false),
        None => true,
    }
}

// ---------------------------------------------------------------------------
// Imports and the whole class
// ---------------------------------------------------------------------------

/// The package of an import path's first part: the CDK library's modules
/// live in `software.amazon.awscdk.services`.
pub open spec fn import_head(first: Seq<char>) -> Seq<char> {
    if first == "aws-cdk-lib"@ {
        "software.amazon.awscdk.services"@
    } else {
        first
    }
}

/// The package parts of an import path: the first part mapped as above,
/// the others reduced to their alphanumeric characters.
pub open spec fn import_parts(path: Seq<String>) -> Seq<Seq<char>> {
    Seq::new(
        path.len(),
        |i: int|
            if i == 0 {
                import_head(path[0]@)
            } else {
                alphanumeric_only(path[i]@)
            },
    )
}

/// The module of an import: all package parts but the last, joined with
/// dots.
pub open spec fn import_module(path: Seq<String>) -> Seq<char> {
    join_text(import_parts(path).take(path.len() - 1), "."@)
}

/// The Java import statement of an import; empty when its module is.
pub open spec fn import_text(imp: ImportInstruction) -> Seq<char> {
    let module = import_module(imp.path@);
    if module.len() > 0 {
        "import "@ + module + "."@ + imp.name@ + ".*;"@
    } else {
        Seq::empty()
    }
}

/// An import line per import.
pub open spec fn import_lines(s: Seq<ImportInstruction>) -> Seq<Piece>
    decreases s.len(),
{
    if s.len() == 0 {
        Seq::empty()
    } else {
        import_lines(s.drop_last()) + line_of(import_text(s.last()))
    }
}

/// The block of the stack class.
pub open spec fn class_layout(stack: Seq<char>) -> Layout {
    Layout {
        indent: ind1(),
        leading: Some("class "@ + stack + " extends Stack {"@),
        trailing: Some("}"@),
        trailing_newline: true,
    }
}

/// The whole source file: header and imports, then the stack class with
/// its output fields and constructors; the last constructor's body sets
/// the parameters' defaults and declares the mappings, conditions,
/// resources and outputs.
pub open spec fn synthesis_pieces(package: Seq<char>, ir: CloudformationProgramIr, stack: Seq<char>) -> Seq<Piece> {
    header_pieces(package) + import_lines(ir.imports@) + seq![Piece::Text(nl()), Piece::Open(class_layout(stack))]
        + output_field_pieces(ir.outputs@) + stack_definition_pieces(params_of(ir), stack) + props_pieces(
        params_of(ir),
    ) + write_mappings_pieces(ir) + condition_lines(ir.conditions@) + seq![Piece::Text(nl())] + resources_pieces(
        ir.resources@,
    ) + outputs_pieces(ir.outputs@)
}

/// A template can be synthesized: every import has a path, and every
/// resource and output can be written.
pub open spec fn program_ok(ir: CloudformationProgramIr) -> bool {
    &&& forall|i: int| 0 <= i < ir.imports@.len() ==> #[trigger] ir.imports@[i].path@.len() > 0
    &&& forall|i: int| 0 <= i < ir.resources@.len() ==> resource_ok(#[trigger] ir.resources@[i])
    &&& forall|i: int| 0 <= i < ir.outputs@.len() ==> output_ok(#[trigger] ir.outputs@[i])
}

// ---------------------------------------------------------------------------
// Implementation
// ---------------------------------------------------------------------------

impl Java {
    /// The package the generated class is put in.
    pub closed spec fn package(&self) -> Seq<char> {
        self.package_name@
    }

    /// A synthesizer that puts its classes in `package_name`.
    pub fn new(package_name: &str) -> (r: Java)
        ensures
            r.package() == package_name@,
    {
        Java { package_name: owned(package_name) }
    }

    /// Writes the package declaration and the common imports.
    pub fn write_header(&self, code: &mut CodeBuffer)
        ensures
            final(code)@ == old(code)@ + header_pieces(self.package()),
    {
        let mut package = owned("package ");
        package.append(self.package_name.as_str());
        package.append(";");
        code.line(package.as_str());
        code.newline();
        code.line("import software.constructs.Construct;");
        code.newline();
        code.line("import java.util.*;");
        code.line("import software.amazon.awscdk.*;");
        code.line("import software.amazon.awscdk.CfnMapping;");
        code.line("import software.amazon.awscdk.CfnTag;");
        code.line("import software.amazon.awscdk.Stack;");
        code.line("import software.amazon.awscdk.StackProps;");
    }

    /// The Java expression of a mapping value.
    pub fn mapping_value(mapping: &MappingInnerValue) -> (r: String)
        ensures
            r@ == mapping_value_text(*mapping),
    {
        match mapping {
            MappingInnerValue::Number(num) => i64_text(*num),
            MappingInnerValue::Bool(b) => bool_string(*b),
            MappingInnerValue::String(s) => debug_text(s.as_str()),
            MappingInnerValue::List(items) => {
                let joined = join(items, "\", \"");
                let mut s = owned("Arrays.asList(\"");
                s.append(joined.as_str());
                s.append("\")");
                s
            },
            MappingInnerValue::Float(num) => owned(num.as_str()),
        }
    }

    /// Writes the Java expression of a mapping value.
    pub fn emit_mappings(mapping: &MappingInnerValue, output: &mut CodeBuffer)
        ensures
            final(output)@ == old(output)@.push(Piece::Text(mapping_value_text(*mapping))),
    {
        let v = Self::mapping_value(mapping);
        output.text(v.as_str());
    }

    /// Writes one mapping.
    fn write_mapping(mapping: &MappingInstruction, map: &mut CodeBuffer)
        ensures
            final(map)@ == old(map)@ + mapping_pieces(*mapping),
    {
        let name = camel_case(mapping.name.as_str());
        Self::write_named_mapping(mapping, name.as_str(), map);
    }

    /// Writes one mapping under the variable `name`.
    pub fn write_named_mapping(mapping: &MappingInstruction, name: &str, map: &mut CodeBuffer)
        ensures
            final(map)@ == old(map)@ + named_mapping_pieces(*mapping, name@),
    {
        let mut decl = owned("final CfnMapping ");
        decl.append(name);
        decl.append(" = new CfnMapping(this, \"");
        decl.append(name);
        decl.append("\");");
        map.line(decl.as_str());
        let ghost after_decl = map@;
        let mut i: usize = 0;
        while i < mapping.map.len()
            invariant
                i <= mapping.map@.len(),
                map@ == after_decl + mapping_rows(name@, mapping.map@.take(i as int)),
            decreases mapping.map.len() - i,
        {
            assert(mapping.map@.take(i + 1).drop_last() =~= mapping.map@.take(i as int));
            let key1 = &mapping.map[i].0;
            let inner = &mapping.map[i].1;
            let ghost row_start = map@;
            let mut j: usize = 0;
            while j < inner.len()
                invariant
                    j <= inner@.len(),
                    map@ == row_start + mapping_inner_rows(name@, key1@, inner@.take(j as int)),
                decreases inner.len() - j,
            {
                assert(inner@.take(j + 1).drop_last() =~= inner@.take(j as int));
                let mut call = owned(name);
                call.append(".setValue(\"");
                call.append(key1.as_str());
                call.append("\", \"");
                call.append(inner[j].0.as_str());
                call.append("\", ");
                map.text(call.as_str());
                Self::emit_mappings(&inner[j].1, map);
                map.text(");\n");
                j = j + 1;
            }
            assert(inner@.take(inner@.len() as int) =~= inner@);
            i = i + 1;
        }
        assert(mapping.map@.take(mapping.map@.len() as int) =~= mapping.map@);
        map.newline();
    }

    /// Writes the mappings section: a comment, then each mapping; nothing
    /// when the template has no mappings.
    pub fn write_mappings(ir: &CloudformationProgramIr, map: &mut CodeBuffer)
        ensures
            final(map)@ == old(map)@ + write_mappings_pieces(*ir),
    {
        if ir.mappings.len() == 0 {
            assert(old(map)@ + write_mappings_pieces(*ir) =~= old(map)@);
            return;
        }
        map.line("// Mappings");
        let ghost after = map@;
        let mut i: usize = 0;
        while i < ir.mappings.len()
            invariant
                i <= ir.mappings@.len(),
                map@ == after + mappings_pieces(ir.mappings@.take(i as int)),
            decreases ir.mappings.len() - i,
        {
            assert(ir.mappings@.take(i + 1).drop_last() =~= ir.mappings@.take(i as int));
            Self::write_mapping(&ir.mappings[i], map);
            i = i + 1;
        }
        assert(ir.mappings@.take(ir.mappings@.len() as int) =~= ir.mappings@);
    }

    /// A copy of an optional string.
    fn copy_opt(o: &Option<String>) -> (r: Option<String>)
        ensures
            opt_view(r) == opt_view(*o),
    {
        match o {
            Some(s) => Some(owned(s.as_str())),
            None => None,
        }
    }

    /// The Java type of a template parameter's type.
    fn java_type(constructor_type: &str) -> (r: String)
        ensures
            r@ == java_type_text(constructor_type@),
    {
        if text_eq(constructor_type, "List<Number>") {
            owned("List<Number>")
        } else if contains(constructor_type, "List") {
            owned("String[]")
        } else {
            owned("String")
        }
    }

    /// The Java constructor parameters of a template, in order.
    pub fn emit_props(ir: &CloudformationProgramIr) -> (v: Vec<JavaConstructorParameter>)
        ensures
            param_models(v@) == params_of(*ir),
    {
        let inputs = &ir.constructor.inputs;
        let mut v: Vec<JavaConstructorParameter> = Vec::new();
        let mut i: usize = 0;
        while i < inputs.len()
            invariant
                i <= inputs@.len(),
                inputs == &ir.constructor.inputs,
                param_models(v@) == params_of(*ir).take(i as int),
            decreases inputs.len() - i,
        {
            let input = &inputs[i];
            let p = JavaConstructorParameter {
                name: owned(input.name.as_str()),
                description: Self::copy_opt(&input.description),
                java_type: Self::java_type(input.constructor_type.as_str()),
                constructor_type: owned(input.constructor_type.as_str()),
                default_value: Self::copy_opt(&input.default_value),
            };
            let ghost before = v@;
            v.push(p);
            assert(param_models(v@) =~= param_models(before).push(param_model(p)));
            assert(params_of(*ir).take(i + 1) =~= params_of(*ir).take(i as int).push(param_of_input(inputs@[i as int])));
            i = i + 1;
        }
        assert(params_of(*ir).take(inputs@.len() as int) =~= params_of(*ir));
        v
    }

    /// Writes the constructors of the stack class. The block of the
    /// constructor whose body comes next is left open.
    pub fn write_stack_definitions(props: &Vec<JavaConstructorParameter>, writer: &mut CodeBuffer, stack_name: &str)
        ensures
            final(writer)@ == old(writer)@ + stack_definition_pieces(param_models(props@), stack_name@),
    {
        let ghost base = writer@;
        let mut short = owned("public ");
        short.append(stack_name);
        short.append("(final Construct scope, final String id) {");
        writer.indent_with_options(
            IndentOptions {
                indent: owned("    "),
                leading: Some(short),
                trailing: Some(owned("}")),
                trailing_newline: true,
            },
        );
        writer.line("super(scope, id, null);");
        writer.close();
        writer.newline();
        let mut with_props = owned("public ");
        with_props.append(stack_name);
        with_props.append("(final Construct scope, final String id, final StackProps props) {");
        writer.indent_with_options(
            IndentOptions {
                indent: owned("    "),
                leading: Some(with_props),
                trailing: Some(owned("}")),
                trailing_newline: true,
            },
        );
        assert(param_models(props@).len() == props@.len());
        if props.len() == 0 {
            writer.line("super(scope, id, props);");
        } else {
            let nulls = repeat(", null", props.len());
            let mut this_call = owned("this(scope, id, props");
            this_call.append(nulls.as_str());
            this_call.append(");");
            writer.line(this_call.as_str());
            writer.close();
            writer.newline();
            let mut full = owned("public ");
            full.append(stack_name);
            full.append("(final Construct scope, final String id, final StackProps props,");
            writer.indent_with_options(
                IndentOptions {
                    indent: owned("    "),
                    leading: Some(full),
                    trailing: Some(owned("}")),
                    trailing_newline: true,
                },
            );
            let ghost params_start = writer@;
            let n = props.len();
            let mut i: usize = 0;
            while i < n
                invariant
                    n == props@.len(),
                    i <= n,
                    writer@ == params_start + param_lines(param_models(props@).take(i as int), n as nat),
                decreases n - i,
            {
                assert(param_models(props@).take(i + 1).drop_last() =~= param_models(props@).take(i as int));
                let p = &props[i];
                let mut l = owned(p.java_type.as_str());
                l.append(" ");
                l.append(p.name.as_str());
                if i + 1 == n {
                    l.append(") {");
                } else {
                    l.append(",");
                }
                writer.indent("    ");
                writer.line(l.as_str());
                writer.close();
                i = i + 1;
            }
            assert(param_models(props@).take(n as int) =~= param_models(props@));
            writer.line("super(scope, id, props);");
            writer.newline();
        }
        assert(writer@ =~= base + stack_definition_pieces(param_models(props@), stack_name@));
    }

    /// Writes the default-setting lines of one constructor parameter.
    fn write_prop(prop: &JavaConstructorParameter, writer: &mut CodeBuffer)
        ensures
            final(writer)@ == old(writer)@ + prop_pieces(param_model(*prop)),
    {
        match &prop.default_value {
            None => writer.newline(),
            Some(v) => {
                let name = prop.name.as_str();
                if contains(prop.constructor_type.as_str(), "AWS::") {
                    let ghost base = writer@;
                    let value_as = if contains(prop.constructor_type.as_str(), "List") {
                        "getValueAsList"
                    } else {
                        "getValueAsString"
                    };
                    let mut leading = owned(name);
                    leading.append(" = Optional.ofNullable(");
                    leading.append(name);
                    leading.append(").isPresent()");
                    writer.indent_with_options(
                        IndentOptions { indent: owned("        "), leading: Some(leading), trailing: None, trailing_newline: true },
                    );
                    let q = concat("? ", name);
                    writer.line(q.as_str());
                    let pc = pascal_case(name);
                    let details = Self::parameter_builder(pc.as_str());
                    writer.indent_with_options(
                        IndentOptions { indent: owned("        "), leading: Some(details), trailing: None, trailing_newline: false },
                    );
                    let mut ty = owned(".type(\"");
                    ty.append(prop.constructor_type.as_str());
                    ty.append("\")");
                    writer.line(ty.as_str());
                    let mut dv = owned(".defaultValue(\"");
                    dv.append(v.as_str());
                    dv.append("\")");
                    writer.line(dv.as_str());
                    writer.line(".build()");
                    let mut va = owned(".");
                    va.append(value_as);
                    va.append("();");
                    writer.line(va.as_str());
                    writer.close();
                    writer.close();
                    assert(writer@ =~= base + prop_pieces(param_model(*prop)));
                } else {
                    let mut l = owned(name);
                    l.append(" = Optional.ofNullable(");
                    l.append(name);
                    l.append(").isPresent() ? ");
                    l.append(name);
                    l.append("\n");
                    l.append("        ");
                    l.append(": \"");
                    l.append(v.as_str());
                    l.append("\";");
                    writer.line(l.as_str());
                }
            },
        }
    }

    /// Writes the default-setting lines of every constructor parameter.
    pub fn write_props(props: &Vec<JavaConstructorParameter>, writer: &mut CodeBuffer)
        ensures
            final(writer)@ == old(writer)@ + props_pieces(param_models(props@)),
    {
        let ghost base = writer@;
        let mut i: usize = 0;
        while i < props.len()
            invariant
                i <= props@.len(),
                writer@ == base + props_pieces(param_models(props@).take(i as int)),
            decreases props.len() - i,
        {
            assert(param_models(props@).take(i + 1).drop_last() =~= param_models(props@).take(i as int));
            Self::write_prop(&props[i], writer);
            i = i + 1;
        }
        assert(param_models(props@).take(props@.len() as int) =~= param_models(props@));
    }
    /// Writes the declaration of a resource with its properties; answers
    /// whether the resource exists only under a condition.
    pub fn write_resource(resource: &ResourceInstruction, writer: &mut CodeBuffer) -> (maybe_undefined: bool)
        requires
            entries_java_ok(resource.properties@, true),
        ensures
            final(writer)@ == old(writer)@ + resource_pieces(*resource),
            maybe_undefined == resource.condition is Some,
    {
        let ghost base = writer@;
        let class = resource.resource_type.short_name();
        let var = name(resource.name.as_str());
        match &resource.condition {
            Some(cond) => {
                let cc = camel_case(cond.as_str());
                let l = Self::declaration(resource, var.as_str(), cc.as_str());
                writer.line(l.as_str());
                writer.indent("        ");
                emit_property_entries(&resource.properties, writer, Some(class));
                writer.line(".build()) : Optional.empty();");
                writer.close();
                assert(writer@ =~= base + resource_pieces(*resource));
                true
            },
            None => {
                let l = Self::declaration(resource, var.as_str(), "");
                writer.line(l.as_str());
                writer.indent("        ");
                emit_property_entries(&resource.properties, writer, Some(class));
                writer.line(".build();");
                writer.close();
                assert(writer@ =~= base + resource_pieces(*resource));
                false
            },
        }
    }

    /// The first line of a resource's declaration, with the variable name
    /// `var` and, for a resource under a condition, the camel-case form
    /// `cc` of the condition's name.
    pub fn declaration(resource: &ResourceInstruction, var: &str, cc: &str) -> (r: String)
        ensures
            r@ == declaration_text(*resource, var@, cc@),
    {
        let class = resource.resource_type.short_name();
        let res_name = resource.name.as_str();
        match &resource.condition {
            Some(_) => {
                let mut l = owned("Optional<Cfn");
                l.append(class);
                l.append("> ");
                l.append(var);
                l.append(" = ");
                l.append(cc);
                l.append(" ? Optional.of(Cfn");
                l.append(class);
                l.append(".Builder.create(this, \"");
                l.append(res_name);
                l.append("\")");
                l
            },
            None => {
                let mut l = owned("Cfn");
                l.append(class);
                l.append(" ");
                l.append(var);
                l.append(" = Cfn");
                l.append(class);
                l.append(".Builder.create(this, \"");
                l.append(res_name);
                l.append("\")");
                l
            },
        }
    }

    /// Writes the `addMetadata` statements of metadata entries.
    fn write_metadata_entries(
        entries: &Vec<(String, ResourceIr)>,
        writer: &mut CodeBuffer,
        target: &str,
        trailer: &str,
    )
        requires
            entries_java_ok(entries@, false),
        ensures
            final(writer)@ == old(writer)@ + metadata_entries(entries@, target@, trailer@),
    {
        let ghost base = writer@;
        assert(entries@.skip(0) =~= entries@);
        let mut i: usize = 0;
        while i < entries.len()
            invariant
                i <= entries@.len(),
                writer@ == base + metadata_entries(entries@.take(i as int), target@, trailer@),
                entries_java_ok(entries@.skip(i as int), false),
            decreases entries.len() - i,
        {
            assert(entries@.take(i + 1).drop_last() =~= entries@.take(i as int));
            assert(entries@.skip(i as int).drop_first() =~= entries@.skip(i + 1));
            assert(entries@.skip(i as int)[0] == entries@[i as int]);
            let mut l = owned(target);
            l.append(".addMetadata(\"");
            l.append(entries[i].0.as_str());
            l.append("\", ");
            writer.text(l.as_str());
            emit_java(&entries[i].1, writer, None);
            let t = concat(")", trailer);
            writer.text(t.as_str());
            i = i + 1;
        }
        assert(entries@.take(entries@.len() as int) =~= entries@);
    }

    /// Writes the metadata statements of a resource.
    fn write_metadata(metadata: &Option<ResourceIr>, writer: &mut CodeBuffer, target: &str, trailer: &str)
        requires
            match *metadata {
                Some(m) => match m {
                    ResourceIr::Object(_, entries) => entries_java_ok(entries@, false),
                    _ => true,
                },
                None => true,
            },
        ensures
            final(writer)@ == old(writer)@ + metadata_pieces(*metadata, target@, trailer@),
    {
        if let Some(metadata) = metadata {
            match metadata {
                ResourceIr::Object(_, entries) => {
                    Self::write_metadata_entries(entries, writer, target, trailer);
                },
                unsupported => {
                    let d = unsupported.debug_string();
                    let mut l = owned("/* ");
                    l.append(d.as_str());
                    l.append(" */");
                    writer.line(l.as_str());
                },
            }
        }
    }

    /// Writes the `addDependency` statements of a resource.
    fn write_dependencies(deps: &Vec<String>, writer: &mut CodeBuffer, target: &str, trailer: &str)
        ensures
            final(writer)@ == old(writer)@ + dependency_pieces(deps@, target@, trailer@),
    {
        let ghost base = writer@;
        let mut i: usize = 0;
        while i < deps.len()
            invariant
                i <= deps@.len(),
                writer@ == base + dependency_pieces(deps@.take(i as int), target@, trailer@),
            decreases deps.len() - i,
        {
            assert(deps@.take(i + 1).drop_last() =~= deps@.take(i as int));
            let lower = to_lowercase(deps[i].as_str());
            let l = Self::dependency_statement(target, lower.as_str(), trailer);
            writer.text(l.as_str());
            i = i + 1;
        }
        assert(deps@.take(deps@.len() as int) =~= deps@);
    }

    /// How attribute statements name a resource whose variable is `cc`.
    pub fn attribute_target_of(cc: &str, maybe_undefined: bool) -> (r: String)
        ensures
            r@ == target_text(cc@, maybe_undefined),
    {
        if maybe_undefined {
            let mut t = owned(cc);
            t.append(".ifPresent(_");
            t.append(cc);
            t.append(" -> _");
            t.append(cc);
            t
        } else {
            owned(cc)
        }
    }

    /// The statement that makes `target` depend on the resource whose
    /// lower-case name is `lower`, ended by `trailer`.
    pub fn dependency_statement(target: &str, lower: &str, trailer: &str) -> (r: String)
        ensures
            r@ == target@ + ".addDependency("@ + lower@ + ")"@ + trailer@,
    {
        let mut l = owned(target);
        l.append(".addDependency(");
        l.append(lower);
        l.append(")");
        l.append(trailer);
        l
    }

    /// Writes the removal-policy and update-policy statements of a
    /// resource.
    fn write_policies(resource: &ResourceInstruction, writer: &mut CodeBuffer, target: &str, trailer: &str)
        requires
            match resource.update_policy {
                Some(u) => java_ok(u, false),
                None => true,
            },
        ensures
            final(writer)@ == old(writer)@ + policy_pieces(*resource, target@, trailer@),
    {
        let ghost base = writer@;
        if let Some(deletion_policy) = &resource.deletion_policy {
            let mut l = owned(target);
            l.append(".applyRemovalPolicy(RemovalPolicy.");
            l.append(deletion_policy.as_str());
            l.append(")");
            l.append(trailer);
            writer.text(l.as_str());
        }
        let ghost mid = writer@;
        if let Some(update_policy) = &resource.update_policy {
            let mut l = owned(target);
            l.append(".getCfnOptions().setUpdatePolicy(");
            writer.text(l.as_str());
            emit_java(update_policy, writer, None);
            let t = concat(")", trailer);
            writer.text(t.as_str());
        }
        assert(writer@ =~= base + mid.skip(base.len() as int) + writer@.skip(mid.len() as int));
    }

    /// Writes the statements that set a resource's metadata, dependencies,
    /// removal policy and update policy, and a blank line after them when
    /// there are any.
    pub fn write_resource_attributes(resource: &ResourceInstruction, writer: &mut CodeBuffer, maybe_undefined: bool)
        requires
            attributes_ok(*resource),
        ensures
            final(writer)@ == old(writer)@ + attribute_pieces(*resource, maybe_undefined),
    {
        let ghost base = writer@;
        let cc = camel_case(resource.name.as_str());
        let res_name = Self::attribute_target_of(cc.as_str(), maybe_undefined);
        let trailer = if maybe_undefined {
            ");\n"
        } else {
            ";\n"
        };
        let ghost target = res_name@;
        assert(target == attribute_target(resource.name@, maybe_undefined));
        assert(trailer@ == attribute_trailer(maybe_undefined));

        Self::write_metadata(&resource.metadata, writer, res_name.as_str(), trailer);
        let ghost s1 = writer@;
        Self::write_dependencies(&resource.dependencies, writer, res_name.as_str(), trailer);
        let ghost s2 = writer@;
        Self::write_policies(resource, writer, res_name.as_str(), trailer);
        let ghost s3 = writer@;
        let extra_line = resource.metadata.is_some() || resource.dependencies.len() > 0
            || resource.deletion_policy.is_some() || resource.update_policy.is_some();
        if extra_line {
            writer.newline();
        }
        proof {
            let m = metadata_pieces(resource.metadata, target, trailer@);
            let d = dependency_pieces(resource.dependencies@, target, trailer@);
            let p = policy_pieces(*resource, target, trailer@);
            assert(s1 == base + m);
            assert(s2 == base + m + d);
            assert(s3 == base + m + d + p);
        }
        assert(writer@ =~= base + attribute_pieces(*resource, maybe_undefined));
    }

    /// Writes every resource, a blank line after each, and its attribute
    /// statements.
    pub fn write_resources(ir: &CloudformationProgramIr, writer: &mut CodeBuffer)
        requires
            forall|i: int| 0 <= i < ir.resources@.len() ==> resource_ok(#[trigger] ir.resources@[i]),
        ensures
            final(writer)@ == old(writer)@ + resources_pieces(ir.resources@),
    {
        let ghost base = writer@;
        let mut i: usize = 0;
        while i < ir.resources.len()
            invariant
                i <= ir.resources@.len(),
                forall|k: int| 0 <= k < ir.resources@.len() ==> resource_ok(#[trigger] ir.resources@[k]),
                writer@ == base + resources_pieces(ir.resources@.take(i as int)),
            decreases ir.resources.len() - i,
        {
            assert(ir.resources@.take(i + 1).drop_last() =~= ir.resources@.take(i as int));
            let resource = &ir.resources[i];
            assert(resource_ok(ir.resources@[i as int]));
            let maybe_undefined = Self::write_resource(resource, writer);
            writer.newline();
            Self::write_resource_attributes(resource, writer, maybe_undefined);
            i = i + 1;
        }
        assert(ir.resources@.take(ir.resources@.len() as int) =~= ir.resources@);
    }

    /// Writes a `Boolean` variable per condition, then a blank line.
    pub fn write_conditions(ir: &CloudformationProgramIr, writer: &mut CodeBuffer)
        ensures
            final(writer)@ == old(writer)@ + condition_lines(ir.conditions@) + seq![Piece::Text(nl())],
    {
        let ghost base = writer@;
        let mut i: usize = 0;
        while i < ir.conditions.len()
            invariant
                i <= ir.conditions@.len(),
                writer@ == base + condition_lines(ir.conditions@.take(i as int)),
            decreases ir.conditions.len() - i,
        {
            assert(ir.conditions@.take(i + 1).drop_last() =~= ir.conditions@.take(i as int));
            let condition = &ir.conditions[i];
            let name = camel_case(condition.name.as_str());
            let l = Self::condition_declaration(name.as_str(), &condition.value);
            writer.line(l.as_str());
            i = i + 1;
        }
        assert(ir.conditions@.take(ir.conditions@.len() as int) =~= ir.conditions@);
        writer.newline();
    }

    /// The line that builds a template parameter named `pc` in Pascal
    /// case.
    pub fn parameter_builder(pc: &str) -> (r: String)
        ensures
            r@ == ": CfnParameter.Builder.create(this, \""@ + pc@ + "\")"@,
    {
        let mut details = owned(": CfnParameter.Builder.create(this, \"");
        details.append(pc);
        details.append("\")");
        details
    }

    /// The declaration of a condition's `Boolean` variable, named `cc`.
    pub fn condition_declaration(cc: &str, value: &ConditionIr) -> (r: String)
        ensures
            r@ == condition_declaration_text(cc@, *value),
    {
        let val = emit_conditions(value);
        let mut l = owned("Boolean ");
        l.append(cc);
        l.append(" = ");
        l.append(val.as_str());
        l.append(";");
        l
    }

    /// The Java type of an output field.
    pub fn match_field_type(condition: &Option<String>) -> (r: String)
        ensures
            r@ == field_type_text(condition is Some),
    {
        match condition {
            None => owned("Object"),
            Some(_) => owned("Optional<Object>"),
        }
    }

    /// Writes a private field per output, then a getter per output.
    pub fn write_output_fields(ir: &CloudformationProgramIr, writer: &mut CodeBuffer)
        ensures
            final(writer)@ == old(writer)@ + output_field_pieces(ir.outputs@),
    {
        let ghost base = writer@;
        let mut i: usize = 0;
        while i < ir.outputs.len()
            invariant
                i <= ir.outputs@.len(),
                writer@ == base + output_field_lines(ir.outputs@.take(i as int)),
            decreases ir.outputs.len() - i,
        {
            assert(ir.outputs@.take(i + 1).drop_last() =~= ir.outputs@.take(i as int));
            let output = &ir.outputs[i];
            let cc = camel_case(output.name.as_str());
            let l = Self::field_line(&output.condition, cc.as_str());
            writer.line(l.as_str());
            i = i + 1;
        }
        assert(ir.outputs@.take(ir.outputs@.len() as int) =~= ir.outputs@);
        let ghost fields = writer@;
        let mut i: usize = 0;
        while i < ir.outputs.len()
            invariant
                i <= ir.outputs@.len(),
                writer@ == fields + output_getters(ir.outputs@.take(i as int)),
            decreases ir.outputs.len() - i,
        {
            assert(ir.outputs@.take(i + 1).drop_last() =~= ir.outputs@.take(i as int));
            let output = &ir.outputs[i];
            let pc = pascal_case(output.name.as_str());
            let cc = camel_case(output.name.as_str());
            Self::write_getter(&output.condition, pc.as_str(), cc.as_str(), writer);
            i = i + 1;
        }
        assert(ir.outputs@.take(ir.outputs@.len() as int) =~= ir.outputs@);
        assert(writer@ =~= base + output_field_pieces(ir.outputs@));
    }

    /// The field line of an output under the condition `condition`, whose
    /// name has the camel-case form `cc`.
    pub fn field_line(condition: &Option<String>, cc: &str) -> (r: String)
        ensures
            r@ == field_line_text(condition is Some, cc@),
    {
        let ft = Self::match_field_type(condition);
        let mut l = owned("private ");
        l.append(ft.as_str());
        l.append(" ");
        l.append(cc);
        l.append(";\n");
        l
    }

    /// Writes the getter of an output under the condition `condition`,
    /// whose name has the Pascal-case form `pc` and the camel-case form
    /// `cc`.
    pub fn write_getter(condition: &Option<String>, pc: &str, cc: &str, writer: &mut CodeBuffer)
        ensures
            final(writer)@ == old(writer)@ + getter_pieces(condition is Some, pc@, cc@),
    {
        let ft = Self::match_field_type(condition);
        let mut leading = owned("public ");
        leading.append(ft.as_str());
        leading.append(" get");
        leading.append(pc);
        leading.append("() {");
        writer.indent_with_options(
            IndentOptions { indent: owned("    "), leading: Some(leading), trailing: Some(owned("}\n")), trailing_newline: true },
        );
        let mut l = owned("return this.");
        l.append(cc);
        l.append(";");
        writer.line(l.as_str());
        writer.close();
        assert(final(writer)@ =~= old(writer)@ + getter_pieces(condition is Some, pc@, cc@));
    }

    /// Writes the statements of one output.
    fn write_output(output: &OutputInstruction, writer: &mut CodeBuffer)
        requires
            output_ok(*output),
        ensures
            final(writer)@ == old(writer)@ + output_pieces(*output),
    {
        let ghost base = writer@;
        Self::write_output_head(output, writer);
        let ghost head = writer@;
        if let Some(description) = &output.description {
            let mut d = owned(".description(\"");
            d.append(description.as_str());
            d.append("\")");
            writer.line(d.as_str());
        }
        let ghost with_description = writer@;
        if let Some(export) = &output.export {
            writer.text(".exportName(");
            emit_java(export, writer, None);
            writer.text(")\n");
        }
        let ghost with_export = writer@;
        writer.close();
        writer.newline();
        assert(writer@ =~= base + output_pieces(*output)) by {
            assert(with_export =~= head + with_description.skip(head.len() as int) + with_export.skip(
                with_description.len() as int,
            ));
        }
    }

    /// Writes the assignment of an output's field and opens its
    /// `CfnOutput` builder with the value.
    fn write_output_head(output: &OutputInstruction, writer: &mut CodeBuffer)
        requires
            java_ok(output.value, false),
        ensures
            final(writer)@ == old(writer)@ + output_head_pieces(*output),
    {
        let var_name = camel_case(output.name.as_str());
        let cc = match &output.condition {
            Some(cond) => camel_case(cond.as_str()),
            None => String::new(),
        };
        Self::write_named_output_head(output, var_name.as_str(), cc.as_str(), writer);
    }

    /// Writes the assignment of an output's field, whose variable is `var`,
    /// and opens its `CfnOutput` builder with the value; `cc` is the
    /// variable of the output's condition.
    pub fn write_named_output_head(output: &OutputInstruction, var: &str, cc: &str, writer: &mut CodeBuffer)
        requires
            java_ok(output.value, false),
        ensures
            final(writer)@ == old(writer)@ + named_output_head_pieces(*output, var@, cc@),
    {
        let ghost base = writer@;
        match &output.condition {
            None => {
                let mut l = owned("this.");
                l.append(var);
                l.append(" = ");
                writer.text(l.as_str());
                emit_java(&output.value, writer, None);
                writer.text(";\n");
                let mut leading = owned("CfnOutput.Builder.create(this, \"");
                leading.append(output.name.as_str());
                leading.append("\")");
                writer.indent_with_options(
                    IndentOptions {
                        indent: owned("        "),
                        leading: Some(leading),
                        trailing: Some(concat("        ", ".build();")),
                        trailing_newline: true,
                    },
                );
                let mut v = owned(".value(this.");
                v.append(var);
                v.append(".toString())");
                writer.line(v.as_str());
            },
            Some(_) => {
                let mut l = owned("this.");
                l.append(var);
                l.append(" = ");
                l.append(cc);
                l.append(" ? ");
                writer.text(l.as_str());
                emit_java(&output.value, writer, None);
                writer.text(" : Optional.empty();\n");
                let mut leading = owned("this.");
                leading.append(var);
                leading.append(".ifPresent(_");
                leading.append(var);
                leading.append(" -> CfnOutput.Builder.create(this, \"");
                leading.append(output.name.as_str());
                leading.append("\")");
                writer.indent_with_options(
                    IndentOptions {
                        indent: owned("        "),
                        leading: Some(leading),
                        trailing: Some(concat("        ", ".build());")),
                        trailing_newline: true,
                    },
                );
                let mut v = owned(".value(_");
                v.append(var);
                v.append(".toString())");
                writer.line(v.as_str());
            },
        }
        assert(writer@ =~= base + named_output_head_pieces(*output, var@, cc@));
    }

    /// Writes the statements of every output.
    pub fn write_outputs(ir: &CloudformationProgramIr, writer: &mut CodeBuffer)
        requires
            forall|i: int| 0 <= i < ir.outputs@.len() ==> output_ok(#[trigger] ir.outputs@[i]),
        ensures
            final(writer)@ == old(writer)@ + outputs_pieces(ir.outputs@),
    {
        let ghost base = writer@;
        let mut i: usize = 0;
        while i < ir.outputs.len()
            invariant
                i <= ir.outputs@.len(),
                forall|k: int| 0 <= k < ir.outputs@.len() ==> output_ok(#[trigger] ir.outputs@[k]),
                writer@ == base + outputs_pieces(ir.outputs@.take(i as int)),
            decreases ir.outputs.len() - i,
        {
            assert(ir.outputs@.take(i + 1).drop_last() =~= ir.outputs@.take(i as int));
            assert(output_ok(ir.outputs@[i as int]));
            Self::write_output(&ir.outputs[i], writer);
            i = i + 1;
        }
        assert(ir.outputs@.take(ir.outputs@.len() as int) =~= ir.outputs@);
    }
    /// Writes a `java_doc` comment block: the lines written into it are
    /// prefixed with ` * `, between `/**` and ` */`.
    pub fn java_doc(code: &mut CodeBuffer)
        ensures
            final(code)@ == old(code)@.push(
                Piece::Open(Layout { indent: " * "@, leading: Some("/**"@), trailing: Some(" */"@), trailing_newline: true }),
            ),
    {
        code.indent_with_options(
            IndentOptions { indent: owned(" * "), leading: Some(owned("/**")), trailing: Some(owned(" */")), trailing_newline: true },
        );
    }

    /// Whether a resource can be written.
    fn resource_can_be_written(resource: &ResourceInstruction) -> (r: bool)
        ensures
            r == resource_ok(*resource),
    {
        let metadata_ok = match &resource.metadata {
            Some(m) => match m {
                ResourceIr::Object(_, entries) => can_emit_entries(entries, false),
                _ => true,
            },
            None => true,
        };
        let props_ok = can_emit_entries(&resource.properties, true);
        let update_ok = match &resource.update_policy {
            Some(u) => can_emit(u, false),
            None => true,
        };
        props_ok && metadata_ok && update_ok
    }

    /// Whether `synthesize` can be called on a template: every import has a
    /// path, and every resource and output can be written.
    pub fn synthesizable(ir: &CloudformationProgramIr) -> (r: bool)
        ensures
            r == program_ok(*ir),
    {
        let mut i: usize = 0;
        while i < ir.imports.len()
            invariant
                i <= ir.imports@.len(),
                forall|k: int| 0 <= k < i ==> #[trigger] ir.imports@[k].path@.len() > 0,
            decreases ir.imports.len() - i,
        {
            if ir.imports[i].path.len() == 0 {
                return false;
            }
            i = i + 1;
        }
        let mut i: usize = 0;
        while i < ir.resources.len()
            invariant
                i <= ir.resources@.len(),
                forall|k: int| 0 <= k < i ==> resource_ok(#[trigger] ir.resources@[k]),
            decreases ir.resources.len() - i,
        {
            if !Self::resource_can_be_written(&ir.resources[i]) {
                return false;
            }
            i = i + 1;
        }
        let mut i: usize = 0;
        while i < ir.outputs.len()
            invariant
                i <= ir.outputs@.len(),
                forall|k: int| 0 <= k < i ==> output_ok(#[trigger] ir.outputs@[k]),
            decreases ir.outputs.len() - i,
        {
            let o = &ir.outputs[i];
            let export_ok = match &o.export {
                Some(e) => can_emit(e, false),
                None => true,
            };
            if !(can_emit(&o.value, false) && export_ok) {
                return false;
            }
            i = i + 1;
        }
        true
    }

    /// The whole Java source file for a template, with the stack class
    /// named `stack_name`.
    #[verifier::spinoff_prover]
    pub fn synthesize(&self, ir: &CloudformationProgramIr, stack_name: &str) -> (r: String)
        requires
            program_ok(*ir),
        ensures
            r@ == rendered(synthesis_pieces(self.package(), *ir, stack_name@)),
    {
        let mut code = CodeBuffer::new();
        self.write_header(&mut code);
        let ghost after_header = code@;
        let mut i: usize = 0;
        while i < ir.imports.len()
            invariant
                i <= ir.imports@.len(),
                forall|k: int| 0 <= k < ir.imports@.len() ==> #[trigger] ir.imports@[k].path@.len() > 0,
                code@ == after_header + import_lines(ir.imports@.take(i as int)),
            decreases ir.imports.len() - i,
        {
            assert(ir.imports@.take(i + 1).drop_last() =~= ir.imports@.take(i as int));
            assert(ir.imports@[i as int].path@.len() > 0);
            let line = ir.imports[i].to_java_import();
            code.line(line.as_str());
            i = i + 1;
        }
        assert(ir.imports@.take(ir.imports@.len() as int) =~= ir.imports@);
        code.newline();
        let mut leading = owned("class ");
        leading.append(stack_name);
        leading.append(" extends Stack {");
        code.indent_with_options(
            IndentOptions { indent: owned("    "), leading: Some(leading), trailing: Some(owned("}")), trailing_newline: true },
        );
        let props = Self::emit_props(ir);
        Self::write_output_fields(ir, &mut code);
        Self::write_stack_definitions(&props, &mut code, stack_name);
        Self::write_props(&props, &mut code);
        Self::write_mappings(ir, &mut code);
        Self::write_conditions(ir, &mut code);
        Self::write_resources(ir, &mut code);
        Self::write_outputs(ir, &mut code);
        assert(code@ =~= synthesis_pieces(self.package(), *ir, stack_name@));
        code.render()
    }
}

/// The Java variable name of a resource.
pub fn name(key: &str) -> (r: String)
    ensures
        r@ == name_text(key@),
{
    let cc = camel_case(key);
    keep_alphanumeric(cc.as_str())
}

impl Default for Java {
    /// The synthesizer for the package `com.myorg`.
    fn default() -> (r: Java)
        ensures
            r.package() == "com.myorg"@,
    {
        Self::new("com.myorg")
    }
}

impl ImportInstruction {
    /// The Java import statement of the module: its package (the CDK
    /// library's modules under `software.amazon.awscdk.services`, other
    /// parts reduced to alphanumeric characters) and name; empty when the
    /// package is.
    pub fn to_java_import(&self) -> (r: String)
        requires
            self.path@.len() > 0,
        ensures
            r@ == import_text(*self),
    {
        let n = self.path.len();
        let mut parts: Vec<String> = Vec::new();
        let mut i: usize = 0;
        while i + 1 < n
            invariant
                n == self.path@.len(),
                n > 0,
                i <= n - 1,
                views(parts@) == import_parts(self.path@).take(i as int),
            decreases n - i,
        {
            let part = if i == 0 {
                if text_eq(self.path[0].as_str(), "aws-cdk-lib") {
                    owned("software.amazon.awscdk.services")
                } else {
                    owned(self.path[0].as_str())
                }
            } else {
                keep_alphanumeric(self.path[i].as_str())
            };
            let ghost before = parts@;
            parts.push(part);
            assert(views(parts@) =~= views(before).push(part@));
            assert(import_parts(self.path@).take(i + 1) =~= import_parts(self.path@).take(i as int).push(
                import_parts(self.path@)[i as int],
            ));
            i = i + 1;
        }
        let module = join(&parts, ".");
        if !module.as_str().is_empty() {
            let mut s = owned("import ");
            s.append(module.as_str());
            s.append(".");
            s.append(self.name.as_str());
            s.append(".*;");
            s
        } else {
            String::new()
        }
    }
}

} // verus!
