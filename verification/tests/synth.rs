use javasynth::code::{CodeBuffer, IndentOptions};
use javasynth::emit::{base64_decoding, can_emit, emit_java, emit_property_setter, emit_tag_value};
use javasynth::expr::{emit_conditions, emit_reference, get_condition, get_pseudo_param, reference_from_cases};
use javasynth::ir::{
    CfnType, CloudformationProgramIr, ConditionInstruction, ConditionIr, Constructor, ConstructorParameter, FloatText, ImportInstruction,
    MappingInnerValue, MappingInstruction, Origin, OutputInstruction, PseudoParameter, Reference, ResourceInstruction,
    ResourceIr, ResourceType, Structure,
};
use javasynth::java::{name, Java, JavaConstructorParameter, JavaResourceInstruction};
use javasynth::text::{
    contains, i64_text, join, keep_alphanumeric, repeat, text_eq, text_eq_ignore_ascii_case, u64_text,
};

fn cat(parts: &[&str]) -> String {
    parts.concat()
}

fn s(x: &str) -> String {
    x.to_string()
}

fn dbl(display: &str, debug: &str) -> ResourceIr {
    ResourceIr::Double(FloatText { display: s(display), debug: s(debug) })
}

fn param_ref(n: &str) -> Reference {
    Reference { origin: Origin::Parameter, name: s(n) }
}

fn logical(n: &str, conditional: bool) -> Reference {
    Reference { origin: Origin::LogicalId { conditional }, name: s(n) }
}

fn java_of(ir: &ResourceIr, class: Option<&str>) -> String {
    let mut b = CodeBuffer::new();
    emit_java(ir, &mut b, class);
    b.render()
}

fn empty_program() -> CloudformationProgramIr {
    CloudformationProgramIr {
        description: None,
        imports: vec![],
        constructor: Constructor { inputs: vec![] },
        outputs: vec![],
        mappings: vec![],
        conditions: vec![],
        resources: vec![],
    }
}

fn bucket(name: &str, condition: Option<&str>, properties: Vec<(String, ResourceIr)>) -> ResourceInstruction {
    ResourceInstruction {
        name: s(name),
        condition: condition.map(s),
        metadata: None,
        update_policy: None,
        deletion_policy: None,
        dependencies: vec![],
        resource_type: ResourceType { service: s("S3"), name: s("Bucket") },
        properties,
    }
}

const HEADER: &str = "package com.myorg;\n\nimport software.constructs.Construct;\n\nimport java.util.*;\nimport software.amazon.awscdk.*;\nimport software.amazon.awscdk.CfnMapping;\nimport software.amazon.awscdk.CfnTag;\nimport software.amazon.awscdk.Stack;\nimport software.amazon.awscdk.StackProps;\n";

// ---------------------------------------------------------------------------
// Code buffer
// ---------------------------------------------------------------------------

#[test]
fn block_with_leading_and_trailing() {
    let mut b = CodeBuffer::new();
    b.indent_with_options(IndentOptions {
        indent: s("    "),
        leading: Some(s("class A {")),
        trailing: Some(s("}")),
        trailing_newline: true,
    });
    b.line("int x;");
    b.close();
    assert_eq!(b.render(), "class A {\n    int x;\n}\n");
}

#[test]
fn open_blocks_are_closed_on_render() {
    let mut b = CodeBuffer::new();
    b.indent_with_options(IndentOptions {
        indent: s("    "),
        leading: Some(s("class A {")),
        trailing: Some(s("}")),
        trailing_newline: true,
    });
    b.line("a");
    b.indent("  ");
    b.line("b");
    b.newline();
    b.text("c");
    assert_eq!(b.render(), "class A {\n    a\n      b\n\n      c}\n");
}

#[test]
fn text_continues_the_line() {
    let mut b = CodeBuffer::new();
    b.indent("  ");
    b.text("x");
    b.text("y\nz");
    b.close();
    b.text("w");
    assert_eq!(b.render(), "  xy\n  zw");
}

#[test]
fn java_doc_block() {
    let mut b = CodeBuffer::new();
    Java::java_doc(&mut b);
    b.line("Hello.");
    assert_eq!(b.render(), "/**\n * Hello.\n */\n");
}

// ---------------------------------------------------------------------------
// Text helpers
// ---------------------------------------------------------------------------

#[test]
fn decimal_rendering() {
    assert_eq!(u64_text(0), "0");
    assert_eq!(u64_text(1234567890), "1234567890");
    assert_eq!(i64_text(-42), "-42");
    assert_eq!(i64_text(i64::MIN), "-9223372036854775808");
    assert_eq!(i64_text(i64::MAX), "9223372036854775807");
}

#[test]
fn searching_and_joining() {
    assert!(contains("List<String>", "List"));
    assert!(!contains("String", "List"));
    assert!(contains("abc", ""));
    assert!(!contains("", "a"));
    assert!(text_eq("abc", "abc"));
    assert!(!text_eq("abc", "abd"));
    assert!(text_eq_ignore_ascii_case("KEY", "key"));
    assert!(!text_eq_ignore_ascii_case("keys", "key"));
    assert_eq!(repeat(", null", 3), ", null, null, null");
    assert_eq!(repeat("x", 0), "");
    assert_eq!(join(&vec![s("a"), s("b"), s("c")], "\", \""), "a\", \"b\", \"c");
    assert_eq!(join(&vec![], "."), "");
    assert_eq!(keep_alphanumeric("aws-s3_x.y"), "awss3xy");
    assert_eq!(keep_alphanumeric(&keep_alphanumeric("a-b c")), keep_alphanumeric("a-b c"));
}

#[test]
fn resource_variable_name() {
    assert_eq!(name("My-Bucket"), "myBucket");
    assert_eq!(name("bucket 2"), "bucket2");
}

// ---------------------------------------------------------------------------
// References and conditions
// ---------------------------------------------------------------------------

#[test]
fn pseudo_parameters() {
    assert_eq!(get_pseudo_param(PseudoParameter::Partition), "this.getPartition()");
    assert_eq!(get_pseudo_param(PseudoParameter::Region), "this.getRegion()");
    assert_eq!(get_pseudo_param(PseudoParameter::StackId), "this.getStackId()");
    assert_eq!(get_pseudo_param(PseudoParameter::StackName), "this.getStackName()");
    assert_eq!(get_pseudo_param(PseudoParameter::URLSuffix), "this.getUrlSuffix()");
    assert_eq!(get_pseudo_param(PseudoParameter::AccountId), "this.getAccount()");
    assert_eq!(get_pseudo_param(PseudoParameter::NotificationArns), "this.getNotificationArns()");
}

#[test]
fn references() {
    assert_eq!(emit_reference(&param_ref("MyParam")), "myParam");
    assert_eq!(emit_reference(&logical("MyBucket", false)), "myBucket.getRef()");
    assert_eq!(
        emit_reference(&logical("MyBucket", true)),
        "Optional.of(myBucket.isPresent() ? myBucket.get().getRef()\n        : Optional.empty())"
    );
    let attr = |conditional| Reference {
        origin: Origin::GetAttribute { attribute: s("arn"), conditional },
        name: s("MyBucket"),
    };
    assert_eq!(emit_reference(&attr(false)), "myBucket.getAttrArn()");
    assert_eq!(
        emit_reference(&attr(true)),
        "Optional.of(myBucket.isPresent() ? myBucket.get().getAttrArn()\n        : Optional.empty())"
    );
    assert_eq!(emit_reference(&Reference { origin: Origin::Condition, name: s("IsProd") }), "IsProd");
    assert_eq!(
        emit_reference(&Reference { origin: Origin::PseudoParameter(PseudoParameter::Region), name: s("x") }),
        "this.getRegion()"
    );
}

#[test]
fn conditions() {
    let and = ConditionIr::And(vec![ConditionIr::Condition(s("IsProd")), ConditionIr::Str(s("x"))]);
    assert_eq!(emit_conditions(&and), "(isProd && \"x\")");
    let or = ConditionIr::Or(vec![ConditionIr::Condition(s("A")), ConditionIr::Condition(s("B"))]);
    assert_eq!(emit_conditions(&or), "(a || b)");
    assert_eq!(emit_conditions(&ConditionIr::Not(Box::new(ConditionIr::Condition(s("A"))))), "!a");
    let eq = ConditionIr::Equals(Box::new(ConditionIr::Str(s("a"))), Box::new(ConditionIr::Str(s("b"))));
    assert_eq!(emit_conditions(&eq), "\"a\".equals(\"b\")");
    assert_eq!(emit_conditions(&ConditionIr::Not(Box::new(eq))), "!(\"a\".equals(\"b\"))");
    let sel = ConditionIr::Select(s("1"), Box::new(ConditionIr::Ref(param_ref("X"))));
    assert_eq!(emit_conditions(&sel), "Fn.select(\"1\", x)");
    let split = ConditionIr::Split(s("-"), Box::new(ConditionIr::Str(s("a-b"))));
    assert_eq!(emit_conditions(&split), "Arrays.asList(\"a-b\".split(\"-\"))");
    let map = ConditionIr::FindInMap(
        s("M"),
        Box::new(ConditionIr::Str(s("a"))),
        Box::new(ConditionIr::Str(s("b"))),
    );
    assert_eq!(emit_conditions(&map), "Fn.map(\"a\", \"b\")");
    assert_eq!(emit_conditions(&ConditionIr::Str(s("a\"b"))), "\"a\\\"b\"");
}

#[test]
fn condition_lists() {
    let list = vec![ConditionIr::Condition(s("A")), ConditionIr::Condition(s("B")), ConditionIr::Condition(s("C"))];
    assert_eq!(get_condition(&list, " && "), "a && b && c");
    assert_eq!(get_condition(&vec![], " && "), "");
    assert_eq!(emit_conditions(&ConditionIr::And(vec![])), "()");
}

// ---------------------------------------------------------------------------
// Resource values
// ---------------------------------------------------------------------------

#[test]
fn literals() {
    assert_eq!(java_of(&ResourceIr::Null, None), "null");
    assert_eq!(java_of(&ResourceIr::Bool(false), None), "false");
    assert_eq!(java_of(&ResourceIr::Number(-42), None), "-42");
    assert_eq!(java_of(&dbl("1.5", "1.5"), None), "1.5");
    assert_eq!(java_of(&ResourceIr::String(s("hi")), None), "\"hi\"");
    assert_eq!(java_of(&ResourceIr::ImportValue(s("x")), None), "Fn.importValue(\"x\")");
}

#[test]
fn arrays() {
    let arr = ResourceIr::Array(
        Structure::Simple(CfnType::String),
        vec![ResourceIr::String(s("a")), ResourceIr::Number(1)],
    );
    assert_eq!(java_of(&arr, None), "Arrays.asList(\n        \"a\",\n        1)");
    let empty = ResourceIr::Array(Structure::Simple(CfnType::String), vec![]);
    assert_eq!(java_of(&empty, None), "Arrays.asList(\n");
}

#[test]
fn tag_objects() {
    let tag = ResourceIr::Object(
        Structure::Composite(s("Tag")),
        vec![(s("Key"), ResourceIr::String(s("k"))), (s("VALUE"), ResourceIr::Number(3)), (s("Other"), ResourceIr::Null)],
    );
    assert_eq!(
        java_of(&tag, None),
        "CfnTag.builder()\n        .key(\"k\")\n        .value(String.valueOf(3))\n        .build()"
    );
    let tag = ResourceIr::Object(
        Structure::Composite(s("Tag")),
        vec![(s("value"), ResourceIr::Bool(true)), (s("key"), dbl("2.5", "2.5"))],
    );
    assert_eq!(
        java_of(&tag, None),
        "CfnTag.builder()\n        .value(String.valueOf(true))\n        .key(2.5)\n        .build()"
    );
}

#[test]
fn property_objects() {
    let obj = ResourceIr::Object(
        Structure::Composite(s("Versioning")),
        vec![(s("Status"), ResourceIr::String(s("Enabled")))],
    );
    assert_eq!(
        java_of(&obj, Some("Bucket")),
        "CfnBucket.VersioningProperty.builder()\n        .status(\"Enabled\")\n        .build()"
    );
    assert!(can_emit(&obj, true));
    assert!(!can_emit(&obj, false));
}

#[test]
fn simple_objects() {
    let obj = ResourceIr::Object(
        Structure::Simple(CfnType::Json),
        vec![(s("a"), ResourceIr::Number(1)), (s("b"), ResourceIr::Bool(true))],
    );
    assert_eq!(java_of(&obj, None), "Map.of(\"a\", 1,\n\"b\", true)");
    let empty = ResourceIr::Object(Structure::Simple(CfnType::Json), vec![]);
    assert_eq!(java_of(&empty, None), "Map.of(");
}

#[test]
fn intrinsics() {
    let join = ResourceIr::Join(s(","), vec![ResourceIr::String(s("x")), ResourceIr::Ref(param_ref("MyParam"))]);
    assert_eq!(java_of(&join, None), "String.join(\",\",\n        \"x\",\n        myParam)");
    let cond = ResourceIr::If(s("IsProd"), Box::new(ResourceIr::String(s("a"))), Box::new(ResourceIr::String(s("b"))));
    assert_eq!(java_of(&cond, None), "isProd ? \"a\"\n        : \"b\"");
    let sub = ResourceIr::Sub(vec![
        ResourceIr::String(s("arn:")),
        ResourceIr::Ref(Reference { origin: Origin::PseudoParameter(PseudoParameter::Region), name: s("r") }),
    ]);
    assert_eq!(java_of(&sub, None), "\"arn:\" + this.getRegion()");
    let map = ResourceIr::FindInMap(
        s("RegionMap"),
        Box::new(ResourceIr::Ref(Reference { origin: Origin::PseudoParameter(PseudoParameter::Region), name: s("r") })),
        Box::new(ResourceIr::String(s("ami"))),
    );
    assert_eq!(java_of(&map, None), "regionMap.findInMap(this.getRegion(), \"ami\")");
    let azs = ResourceIr::GetAZs(Box::new(ResourceIr::String(s(""))));
    assert_eq!(java_of(&azs, None), "Fn.getAzs(\"\")");
}

#[test]
fn base64_values() {
    let lit = ResourceIr::Base64(Box::new(ResourceIr::String(s("a\"b"))));
    assert_eq!(java_of(&lit, None), "new String(Base64.getDecoder().decode(\"a\\\"b\"))");
    let other = ResourceIr::Base64(Box::new(ResourceIr::Ref(param_ref("UserData"))));
    assert_eq!(java_of(&other, None), "Fn.base64(userData)");
}

#[test]
fn cidr_values() {
    let cidr = |mask| {
        ResourceIr::Cidr(
            Box::new(ResourceIr::String(s("10.0.0.0/16"))),
            Box::new(ResourceIr::Number(6)),
            Box::new(mask),
        )
    };
    assert_eq!(java_of(&cidr(ResourceIr::Number(5)), None), "Fn.cidr(\"10.0.0.0/16\", 6, \"5\")");
    assert_eq!(java_of(&cidr(ResourceIr::String(s("8"))), None), "Fn.cidr(\"10.0.0.0/16\", 6, \"8\")");
    assert_eq!(
        java_of(&cidr(ResourceIr::Bool(true)), None),
        "Fn.cidr(\"10.0.0.0/16\", 6, String.valueOf(Bool(true)))"
    );
}

#[test]
fn select_values() {
    let arr = || {
        ResourceIr::Array(
            Structure::Simple(CfnType::String),
            vec![ResourceIr::String(s("a")), ResourceIr::String(s("b"))],
        )
    };
    assert_eq!(java_of(&ResourceIr::Select(1, Box::new(arr())), None), "\"b\"");
    assert_eq!(java_of(&ResourceIr::Select(5, Box::new(arr())), None), "null");
    assert!(!can_emit(&ResourceIr::Select(2, Box::new(arr())), false));
    assert!(can_emit(&ResourceIr::Select(1, Box::new(arr())), false));
    let other = ResourceIr::Select(0, Box::new(ResourceIr::Ref(logical("Subnets", false))));
    assert_eq!(java_of(&other, None), "Fn.select(0, subnets.getRef())");
}

#[test]
fn split_values() {
    let lit = ResourceIr::Split(s(","), Box::new(ResourceIr::String(s("a,b"))));
    assert_eq!(java_of(&lit, None), "a,b.split(\",\")");
    let other = ResourceIr::Split(s(","), Box::new(ResourceIr::Ref(param_ref("P"))));
    assert_eq!(java_of(&other, None), "Fn.split(,, p)");
}

#[test]
fn debug_rendering() {
    let v = ResourceIr::Object(
        Structure::Simple(CfnType::Json),
        vec![(s("k"), ResourceIr::Array(Structure::Composite(s("Tag")), vec![ResourceIr::Null, ResourceIr::Number(-1)]))],
    );
    assert_eq!(
        v.debug_string(),
        "Object(Simple(Json), {\"k\": Array(Composite(\"Tag\"), [Null, Number(-1)])})"
    );
    let r = ResourceIr::Ref(Reference {
        origin: Origin::GetAttribute { attribute: s("Arn"), conditional: false },
        name: s("B"),
    });
    assert_eq!(
        r.debug_string(),
        "Ref(Reference { origin: GetAttribute { attribute: \"Arn\", conditional: false }, name: \"B\" })"
    );
    let sel = ResourceIr::Select(3, Box::new(ResourceIr::Ref(param_ref("P"))));
    assert_eq!(sel.debug_string(), "Select(3, Ref(Reference { origin: Parameter, name: \"P\" }))");
}

// ---------------------------------------------------------------------------
// Synthesizer parts
// ---------------------------------------------------------------------------

#[test]
fn header() {
    let mut b = CodeBuffer::new();
    Java::new("org.example").write_header(&mut b);
    assert_eq!(b.render(), HEADER.replace("com.myorg", "org.example"));
}

#[test]
fn imports() {
    let imp = |path: &[&str]| ImportInstruction { name: s("s3"), path: path.iter().map(|p| s(p)).collect() };
    assert_eq!(imp(&["aws-cdk-lib", "aws-s3"]).to_java_import(), "import software.amazon.awscdk.services.s3.*;");
    assert_eq!(
        imp(&["aws-cdk-lib", "aws-s3", "x"]).to_java_import(),
        "import software.amazon.awscdk.services.awss3.s3.*;"
    );
    assert_eq!(imp(&["com.other", "x"]).to_java_import(), "import com.other.s3.*;");
    assert_eq!(imp(&["aws-cdk-lib"]).to_java_import(), "");
}

#[test]
fn mapping_values() {
    assert_eq!(Java::mapping_value(&MappingInnerValue::Number(7)), "7");
    assert_eq!(Java::mapping_value(&MappingInnerValue::Bool(true)), "true");
    assert_eq!(Java::mapping_value(&MappingInnerValue::String(s("x"))), "\"x\"");
    assert_eq!(Java::mapping_value(&MappingInnerValue::Float(s("2.5"))), "2.5");
    assert_eq!(
        Java::mapping_value(&MappingInnerValue::List(vec![s("a"), s("b")])),
        "Arrays.asList(\"a\", \"b\")"
    );
}

#[test]
fn mappings() {
    let mut ir = empty_program();
    let mut b = CodeBuffer::new();
    Java::write_mappings(&ir, &mut b);
    assert_eq!(b.render(), "");
    ir.mappings.push(MappingInstruction {
        name: s("RegionMap"),
        map: vec![(s("us-east-1"), vec![(s("ami"), MappingInnerValue::String(s("ami-1")))])],
    });
    let mut b = CodeBuffer::new();
    Java::write_mappings(&ir, &mut b);
    assert_eq!(
        b.render(),
        "// Mappings\nfinal CfnMapping regionMap = new CfnMapping(this, \"regionMap\");\nregionMap.setValue(\"us-east-1\", \"ami\", \"ami-1\");\n\n"
    );
}

fn input(n: &str, t: &str, default: Option<&str>) -> ConstructorParameter {
    ConstructorParameter { name: s(n), description: Some(s("d")), constructor_type: s(t), default_value: default.map(s) }
}

#[test]
fn constructor_parameters() {
    let mut ir = empty_program();
    ir.constructor.inputs = vec![
        input("A", "List<Number>", None),
        input("B", "List<AWS::EC2::Subnet::Id>", None),
        input("C", "String", Some("x")),
    ];
    let props = Java::emit_props(&ir);
    assert_eq!(props.len(), 3);
    assert_eq!(props[0].java_type, "List<Number>");
    assert_eq!(props[1].java_type, "String[]");
    assert_eq!(props[2].java_type, "String");
    assert_eq!(props[2].name, "C");
    assert_eq!(props[2].description.as_deref(), Some("d"));
    assert_eq!(props[1].constructor_type, "List<AWS::EC2::Subnet::Id>");
    assert_eq!(props[2].default_value.as_deref(), Some("x"));
    let _unused = JavaResourceInstruction {};
}

fn jparam(n: &str, t: &str, ct: &str, default: Option<&str>) -> JavaConstructorParameter {
    JavaConstructorParameter {
        name: s(n),
        description: None,
        constructor_type: s(ct),
        java_type: s(t),
        default_value: default.map(s),
    }
}

#[test]
fn constructors_without_parameters() {
    let mut b = CodeBuffer::new();
    Java::write_stack_definitions(&vec![], &mut b, "MyStack");
    assert_eq!(
        b.render(),
        "public MyStack(final Construct scope, final String id) {\n    super(scope, id, null);\n}\n\npublic MyStack(final Construct scope, final String id, final StackProps props) {\n    super(scope, id, props);\n}\n"
    );
}

#[test]
fn constructors_with_parameters() {
    let mut b = CodeBuffer::new();
    let props = vec![jparam("a", "String", "String", None), jparam("b", "String[]", "CommaDelimitedList", None)];
    Java::write_stack_definitions(&props, &mut b, "S");
    assert_eq!(
        b.render(),
        "public S(final Construct scope, final String id) {\n    super(scope, id, null);\n}\n\npublic S(final Construct scope, final String id, final StackProps props) {\n    this(scope, id, props, null, null);\n}\n\npublic S(final Construct scope, final String id, final StackProps props,\n        String a,\n        String[] b) {\n    super(scope, id, props);\n\n}\n"
    );
}

#[test]
fn parameter_defaults() {
    let props = vec![
        jparam("Env", "String", "String", Some("dev")),
        jparam("Vpc", "String", "AWS::EC2::VPC::Id", Some("vpc-1")),
        jparam("Subnets", "String[]", "List<AWS::EC2::Subnet::Id>", Some("s-1")),
        jparam("NoDefault", "String", "String", None),
    ];
    let mut b = CodeBuffer::new();
    Java::write_props(&props, &mut b);
    assert_eq!(
        b.render(),
        cat(&[
            "Env = Optional.ofNullable(Env).isPresent() ? Env\n        : \"dev\";\n",
            "Vpc = Optional.ofNullable(Vpc).isPresent()\n",
            "        ? Vpc\n",
            "        : CfnParameter.Builder.create(this, \"Vpc\")\n",
            "                .type(\"AWS::EC2::VPC::Id\")\n",
            "                .defaultValue(\"vpc-1\")\n",
            "                .build()\n",
            "                .getValueAsString();\n",
            "Subnets = Optional.ofNullable(Subnets).isPresent()\n",
            "        ? Subnets\n",
            "        : CfnParameter.Builder.create(this, \"Subnets\")\n",
            "                .type(\"List<AWS::EC2::Subnet::Id>\")\n",
            "                .defaultValue(\"s-1\")\n",
            "                .build()\n",
            "                .getValueAsList();\n",
            "\n"
        ])
    );
}

#[test]
fn resources() {
    let props = vec![(s("BucketName"), ResourceIr::String(s("b")))];
    let mut b = CodeBuffer::new();
    assert!(!Java::write_resource(&bucket("MyBucket", None, props), &mut b));
    assert_eq!(
        b.render(),
        "CfnBucket myBucket = CfnBucket.Builder.create(this, \"MyBucket\")\n        .bucketName(\"b\")\n        .build();\n"
    );
    let props = vec![(s("BucketName"), ResourceIr::String(s("b")))];
    let mut b = CodeBuffer::new();
    assert!(Java::write_resource(&bucket("MyBucket", Some("IsProd"), props), &mut b));
    assert_eq!(
        b.render(),
        "Optional<CfnBucket> myBucket = isProd ? Optional.of(CfnBucket.Builder.create(this, \"MyBucket\")\n        .bucketName(\"b\")\n        .build()) : Optional.empty();\n"
    );
}

#[test]
fn resource_attributes() {
    let mut r = bucket("MyBucket", None, vec![]);
    let mut b = CodeBuffer::new();
    Java::write_resource_attributes(&r, &mut b, false);
    assert_eq!(b.render(), "");
    r.metadata = Some(ResourceIr::Object(Structure::Simple(CfnType::Json), vec![(s("k"), ResourceIr::String(s("v")))]));
    r.dependencies = vec![s("OtherRes")];
    r.deletion_policy = Some(s("Retain"));
    r.update_policy = Some(ResourceIr::Null);
    let mut b = CodeBuffer::new();
    Java::write_resource_attributes(&r, &mut b, false);
    assert_eq!(
        b.render(),
        "myBucket.addMetadata(\"k\", \"v\");\nmyBucket.addDependency(otherres);\nmyBucket.applyRemovalPolicy(RemovalPolicy.Retain);\nmyBucket.getCfnOptions().setUpdatePolicy(null);\n\n"
    );
    let mut r = bucket("MyBucket", Some("C"), vec![]);
    r.dependencies = vec![s("Other")];
    r.metadata = Some(ResourceIr::String(s("x")));
    let mut b = CodeBuffer::new();
    Java::write_resource_attributes(&r, &mut b, true);
    assert_eq!(
        b.render(),
        "/* String(\"x\") */\nmyBucket.ifPresent(_myBucket -> _myBucket.addDependency(other));\n\n"
    );
}

#[test]
fn condition_variables() {
    let mut ir = empty_program();
    ir.conditions.push(ConditionInstruction {
        name: s("IsProd"),
        value: ConditionIr::Equals(
            Box::new(ConditionIr::Ref(param_ref("Env"))),
            Box::new(ConditionIr::Str(s("prod"))),
        ),
    });
    let mut b = CodeBuffer::new();
    Java::write_conditions(&ir, &mut b);
    assert_eq!(b.render(), "Boolean isProd = env.equals(\"prod\");\n\n");
}

fn output(condition: Option<&str>) -> OutputInstruction {
    OutputInstruction {
        name: s("BucketArn"),
        export: Some(ResourceIr::String(s("e"))),
        value: ResourceIr::Ref(Reference {
            origin: Origin::GetAttribute { attribute: s("Arn"), conditional: false },
            name: s("MyBucket"),
        }),
        condition: condition.map(s),
        description: Some(s("d")),
    }
}

#[test]
fn field_types() {
    assert_eq!(Java::match_field_type(&None), "Object");
    assert_eq!(Java::match_field_type(&Some(s("C"))), "Optional<Object>");
}

#[test]
fn output_fields() {
    let mut ir = empty_program();
    ir.outputs.push(output(None));
    ir.outputs.push(output(Some("IsProd")));
    let mut b = CodeBuffer::new();
    Java::write_output_fields(&ir, &mut b);
    assert_eq!(
        b.render(),
        cat(&[
            "private Object bucketArn;\n\n",
            "private Optional<Object> bucketArn;\n\n",
            "public Object getBucketArn() {\n    return this.bucketArn;\n}\n\n",
            "public Optional<Object> getBucketArn() {\n    return this.bucketArn;\n}\n\n"
        ])
    );
}

#[test]
fn outputs() {
    let mut ir = empty_program();
    ir.outputs.push(output(None));
    let mut b = CodeBuffer::new();
    Java::write_outputs(&ir, &mut b);
    assert_eq!(
        b.render(),
        "this.bucketArn = myBucket.getAttrArn();\nCfnOutput.Builder.create(this, \"BucketArn\")\n        .value(this.bucketArn.toString())\n        .description(\"d\")\n        .exportName(\"e\")\n        .build();\n\n"
    );
    let mut ir = empty_program();
    let mut o = output(Some("IsProd"));
    o.description = None;
    o.export = None;
    ir.outputs.push(o);
    let mut b = CodeBuffer::new();
    Java::write_outputs(&ir, &mut b);
    assert_eq!(
        b.render(),
        "this.bucketArn = isProd ? myBucket.getAttrArn() : Optional.empty();\nthis.bucketArn.ifPresent(_bucketArn -> CfnOutput.Builder.create(this, \"BucketArn\")\n        .value(_bucketArn.toString())\n        .build());\n\n"
    );
}

// ---------------------------------------------------------------------------
// Whole files
// ---------------------------------------------------------------------------

#[test]
fn default_package() {
    let mut b = CodeBuffer::new();
    Java::default().write_header(&mut b);
    assert_eq!(b.render(), HEADER);
}

#[test]
fn synthesize_one_bucket() {
    let mut ir = empty_program();
    ir.resources.push(bucket("Bucket", None, vec![]));
    assert!(Java::synthesizable(&ir));
    let out = Java::default().synthesize(&ir, "MyStack");
    let expected = format!(
        "{}\n{}",
        HEADER,
        cat(&[
            "class MyStack extends Stack {\n",
            "    public MyStack(final Construct scope, final String id) {\n",
            "        super(scope, id, null);\n",
            "    }\n",
            "\n",
            "    public MyStack(final Construct scope, final String id, final StackProps props) {\n",
            "        super(scope, id, props);\n",
            "\n",
            "        CfnBucket bucket = CfnBucket.Builder.create(this, \"Bucket\")\n",
            "                .build();\n",
            "\n",
            "    }\n",
            "}\n"
        ])
    );
    assert_eq!(out, expected);
}

#[test]
fn synthesize_with_imports_and_outputs() {
    let mut ir = empty_program();
    ir.imports.push(ImportInstruction { name: s("s3"), path: vec![s("aws-cdk-lib"), s("aws-s3")] });
    ir.outputs.push(OutputInstruction {
        name: s("Out"),
        export: None,
        value: ResourceIr::String(s("v")),
        condition: None,
        description: None,
    });
    let out = Java::new("p").synthesize(&ir, "S");
    let expected = format!(
        "{}import software.amazon.awscdk.services.s3.*;\n\n{}",
        HEADER.replace("com.myorg", "p"),
        cat(&[
            "class S extends Stack {\n",
            "    private Object out;\n",
            "\n",
            "    public Object getOut() {\n",
            "        return this.out;\n",
            "    }\n",
            "\n",
            "    public S(final Construct scope, final String id) {\n",
            "        super(scope, id, null);\n",
            "    }\n",
            "\n",
            "    public S(final Construct scope, final String id, final StackProps props) {\n",
            "        super(scope, id, props);\n",
            "\n",
            "        this.out = \"v\";\n",
            "        CfnOutput.Builder.create(this, \"Out\")\n",
            "                .value(this.out.toString())\n",
            "                .build();\n",
            "\n",
            "    }\n",
            "}\n"
        ])
    );
    assert_eq!(out, expected);
}

#[test]
fn synthesizable_checks() {
    let mut ir = empty_program();
    assert!(Java::synthesizable(&ir));
    ir.imports.push(ImportInstruction { name: s("x"), path: vec![] });
    assert!(!Java::synthesizable(&ir));
    let mut ir = empty_program();
    ir.outputs.push(OutputInstruction {
        name: s("Out"),
        export: None,
        value: ResourceIr::Object(Structure::Composite(s("Rule")), vec![]),
        condition: None,
        description: None,
    });
    assert!(!Java::synthesizable(&ir));
    let mut ir = empty_program();
    ir.resources.push(bucket(
        "B",
        None,
        vec![(s("Rule"), ResourceIr::Object(Structure::Composite(s("Rule")), vec![]))],
    ));
    assert!(Java::synthesizable(&ir));
}

#[test]
fn values_leave_nesting_unchanged() {
    let mut b = CodeBuffer::new();
    b.indent("  ");
    b.text("v = ");
    let arr = ResourceIr::Array(Structure::Simple(CfnType::String), vec![ResourceIr::String(s("a"))]);
    emit_java(&arr, &mut b, None);
    b.text(";\n");
    b.line("x");
    assert_eq!(b.render(), "  v = Arrays.asList(\n          \"a\");\n  x\n");
}

#[test]
fn rendering_only_appends() {
    let mut b = CodeBuffer::new();
    b.line("first");
    b.text("second");
    let before = b.render();
    b.indent("    ");
    b.line(" more");
    b.newline();
    let after = b.render();
    assert!(after.starts_with(&before));
    assert_eq!(after, "first\nsecond more\n\n");
}

#[test]
fn declaration_and_attributes_share_the_variable() {
    let mut r = bucket("DataBucket", None, vec![]);
    r.deletion_policy = Some(s("Delete"));
    let mut b = CodeBuffer::new();
    Java::write_resource(&r, &mut b);
    Java::write_resource_attributes(&r, &mut b, false);
    let out = b.render();
    assert!(out.starts_with("CfnBucket dataBucket = "));
    assert!(out.contains("\ndataBucket.applyRemovalPolicy(RemovalPolicy.Delete);\n"));
}

#[test]
fn debug_of_maps_and_doubles() {
    let m = ResourceIr::FindInMap(s("M"), Box::new(dbl("1", "1.0")), Box::new(ResourceIr::Null));
    assert_eq!(m.debug_string(), "Map(\"M\", Double(1.0), Null)");
}

#[test]
fn tag_values() {
    let tag = |v: &ResourceIr| {
        let mut b = CodeBuffer::new();
        emit_tag_value(v, &mut b, None);
        b.render()
    };
    assert_eq!(tag(&ResourceIr::Number(5)), "String.valueOf(5)");
    assert_eq!(tag(&dbl("1", "1.0")), "String.valueOf(1)");
    assert_eq!(tag(&ResourceIr::Bool(false)), "String.valueOf(false)");
    assert_eq!(tag(&ResourceIr::String(s("x"))), "\"x\"");
}

#[test]
fn attributes_of_a_resource_with_unwritable_properties() {
    let arr = ResourceIr::Array(Structure::Simple(CfnType::String), vec![]);
    let mut r = bucket("B", None, vec![(s("P"), ResourceIr::Select(0, Box::new(arr)))]);
    let mut b = CodeBuffer::new();
    Java::write_resource_attributes(&r, &mut b, false);
    assert_eq!(b.render(), "");
    r.dependencies = vec![s("X")];
    let mut b = CodeBuffer::new();
    Java::write_resource_attributes(&r, &mut b, true);
    assert_eq!(b.render(), "b.ifPresent(_b -> _b.addDependency(x));\n\n");
}

#[test]
fn body_lines_land_in_the_last_constructor() {
    let mut b = CodeBuffer::new();
    Java::write_stack_definitions(&vec![], &mut b, "S");
    b.line("int x = 1;");
    let text = b.render();
    assert!(text.ends_with("    super(scope, id, props);\n    int x = 1;\n}\n"));
    let mut b = CodeBuffer::new();
    Java::write_stack_definitions(&vec![jparam("a", "String", "String", None)], &mut b, "S");
    b.line("int x = 1;");
    assert!(b.render().ends_with("        String a) {\n    super(scope, id, props);\n\n    int x = 1;\n}\n"));
}

#[test]
fn resources_are_written_one_after_another() {
    let mut ir = empty_program();
    let mut first = bucket("First", None, vec![]);
    first.dependencies = vec![s("Second")];
    ir.resources.push(first);
    ir.resources.push(bucket("Second", Some("IsProd"), vec![]));
    let mut all = CodeBuffer::new();
    Java::write_resources(&ir, &mut all);
    let mut each = CodeBuffer::new();
    for r in ir.resources.iter() {
        Java::write_resource(r, &mut each);
        each.newline();
        Java::write_resource_attributes(r, &mut each, r.condition.is_some());
    }
    assert_eq!(all.render(), each.render());
    let mut none = CodeBuffer::new();
    Java::write_resources(&empty_program(), &mut none);
    assert_eq!(none.render(), "");
}

#[test]
fn text_after_the_case_conversions() {
    let attr = Reference { origin: Origin::GetAttribute { attribute: s("arn"), conditional: false }, name: s("B") };
    assert_eq!(reference_from_cases(&attr, s("theB"), s("TheArn")), "theB.getAttrTheArn()");
    assert_eq!(reference_from_cases(&param_ref("P"), s("pp"), s("")), "pp");
    assert_eq!(reference_from_cases(&logical("X", false), s("xx"), s("")), "xx.getRef()");
    assert_eq!(Java::field_line(&None, "val"), "private Object val;\n");
    assert_eq!(Java::field_line(&Some(s("C")), "val"), "private Optional<Object> val;\n");
    let mut b = CodeBuffer::new();
    Java::write_getter(&Some(s("C")), "Val", "val", &mut b);
    assert_eq!(b.render(), "public Optional<Object> getVal() {\n    return this.val;\n}\n\n");
    let r = bucket("MyBucket", Some("IsProd"), vec![]);
    assert_eq!(
        Java::declaration(&r, "v", "cond"),
        "Optional<CfnBucket> v = cond ? Optional.of(CfnBucket.Builder.create(this, \"MyBucket\")"
    );
    let r = bucket("MyBucket", None, vec![]);
    assert_eq!(Java::declaration(&r, "v", ""), "CfnBucket v = CfnBucket.Builder.create(this, \"MyBucket\")");
    assert_eq!(Java::dependency_statement("t", "other", ";\n"), "t.addDependency(other);\n");
}

#[test]
fn statements_after_the_case_conversions() {
    let m = MappingInstruction {
        name: s("RegionMap"),
        map: vec![(s("eu"), vec![(s("size"), MappingInnerValue::Number(3))])],
    };
    let mut b = CodeBuffer::new();
    Java::write_named_mapping(&m, "rm", &mut b);
    assert_eq!(b.render(), "final CfnMapping rm = new CfnMapping(this, \"rm\");\nrm.setValue(\"eu\", \"size\", 3);\n\n");
    assert_eq!(
        Java::condition_declaration("isProd", &ConditionIr::Condition(s("Other"))),
        "Boolean isProd = other;"
    );
    assert_eq!(Java::attribute_target_of("bkt", false), "bkt");
    assert_eq!(Java::attribute_target_of("bkt", true), "bkt.ifPresent(_bkt -> _bkt");
    assert_eq!(Java::parameter_builder("VpcId"), ": CfnParameter.Builder.create(this, \"VpcId\")");
    let mut o = output(Some("IsProd"));
    o.description = None;
    o.export = None;
    let mut b = CodeBuffer::new();
    Java::write_named_output_head(&o, "arn", "prod", &mut b);
    assert_eq!(
        b.render(),
        "this.arn = prod ? myBucket.getAttrArn() : Optional.empty();\nthis.arn.ifPresent(_arn -> CfnOutput.Builder.create(this, \"BucketArn\")\n        .value(_arn.toString())\n        .build());\n"
    );
}

#[test]
fn value_text_after_the_conversions() {
    let mut b = CodeBuffer::new();
    emit_property_setter("bucketName", &ResourceIr::String(s("b")), &mut b, Some("Bucket"));
    assert_eq!(b.render(), ".bucketName(\"b\")\n");
    assert_eq!(base64_decoding("aGk="), "new String(Base64.getDecoder().decode(\"aGk=\"))");
}
