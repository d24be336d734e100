//! The `Debug` rendering of resource values, as `#[derive(Debug)]` lays it
//! out: variant names, fields in declaration order, strings quoted.
use vstd::prelude::*;
use crate::ir::{CfnType, Origin, PseudoParameter, Reference, ResourceIr, Structure};
use crate::text::{
    bool_string, bool_text, debug_text, i64_text, int_text, nat_text, owned, spec_debug_text,
    usize_text,
};

verus! {

/// The name of a pseudo parameter.
pub open spec fn pseudo_name(p: PseudoParameter) -> Seq<char> {
    match p {
        PseudoParameter::Partition => "Partition"@,
        PseudoParameter::Region => "Region"@,
        PseudoParameter::StackId => "StackId"@,
        PseudoParameter::StackName => "StackName"@,
        PseudoParameter::URLSuffix => "URLSuffix"@,
        PseudoParameter::AccountId => "AccountId"@,
        PseudoParameter::NotificationArns => "NotificationArns"@,
    }
}

/// The debug rendering of an origin.
pub open spec fn origin_debug(o: Origin) -> Seq<char> {
    match o {
        Origin::Parameter => "Parameter"@,
        Origin::LogicalId { conditional } => "LogicalId { conditional: "@ + bool_text(conditional) + " }"@,
        Origin::Condition => "Condition"@,
        Origin::GetAttribute { attribute, conditional } => "GetAttribute { attribute: "@ + spec_debug_text(
            attribute@,
        ) + ", conditional: "@ + bool_text(conditional) + " }"@,
        Origin::PseudoParameter(p) => "PseudoParameter("@ + pseudo_name(p) + ")"@,
    }
}

/// The debug rendering of a reference.
pub open spec fn reference_debug(r: Reference) -> Seq<char> {
    "Reference { origin: "@ + origin_debug(r.origin) + ", name: "@ + spec_debug_text(r.name@) + " }"@
}

/// The debug rendering of a primitive type: its name.
pub open spec fn cfn_type_debug(t: CfnType) -> Seq<char> {
    match t {
        CfnType::Boolean => "Boolean"@,
        CfnType::Integer => "Integer"@,
        CfnType::Double => "Double"@,
        CfnType::Long => "Long"@,
        CfnType::Json => "Json"@,
        CfnType::String => "String"@,
        CfnType::Timestamp => "Timestamp"@,
    }
}

/// The debug rendering of a structure.
pub open spec fn structure_debug(s: Structure) -> Seq<char> {
    match s {
        Structure::Simple(t) => "Simple("@ + cfn_type_debug(t) + ")"@,
        Structure::Composite(t) => "Composite("@ + spec_debug_text(t@) + ")"@,
    }
}

/// The debug renderings of values, separated by `, `.
pub open spec fn list_debug(s: Seq<ResourceIr>) -> Seq<char>
    decreases s,
{
    if s.len() == 0 {
        Seq::empty()
    } else if s.len() == 1 {
        ir_debug(s[0])
    } else {
        list_debug(s.drop_last()) + ", "@ + ir_debug(s.last())
    }
}

/// The debug renderings of entries, `key: value`, separated by `, `.
pub open spec fn entries_debug(s: Seq<(String, ResourceIr)>) -> Seq<char>
    decreases s,
{
    if s.len() == 0 {
        Seq::empty()
    } else if s.len() == 1 {
        spec_debug_text(s[0].0@) + ": "@ + ir_debug(s[0].1)
    } else {
        entries_debug(s.drop_last()) + ", "@ + spec_debug_text(s.last().0@) + ": "@ + ir_debug(s.last().1)
    }
}

/// The debug rendering of a resource value.
pub open spec fn ir_debug(ir: ResourceIr) -> Seq<char>
    decreases ir,
{
    match ir {
        ResourceIr::Null => "Null"@,
        ResourceIr::Bool(b) => "Bool("@ + bool_text(b) + ")"@,
        ResourceIr::Number(n) => "Number("@ + int_text(n as int) + ")"@,
        ResourceIr::Double(t) => "Double("@ + t.debug@ + ")"@,
        ResourceIr::String(t) => "String("@ + spec_debug_text(t@) + ")"@,
        ResourceIr::Array(st, v) => "Array("@ + structure_debug(st) + ", ["@ + list_debug(v@) + "])"@,
        ResourceIr::Object(st, m) => "Object("@ + structure_debug(st) + ", {"@ + entries_debug(m@) + "})"@,
        ResourceIr::If(c, t, f) => "If("@ + spec_debug_text(c@) + ", "@ + ir_debug(*t) + ", "@ + ir_debug(*f) + ")"@,
        ResourceIr::Join(sep, v) => "Join("@ + spec_debug_text(sep@) + ", ["@ + list_debug(v@) + "])"@,
        ResourceIr::Split(sep, r) => "Split("@ + spec_debug_text(sep@) + ", "@ + ir_debug(*r) + ")"@,
        ResourceIr::Ref(r) => "Ref("@ + reference_debug(r) + ")"@,
        ResourceIr::Sub(v) => "Sub(["@ + list_debug(v@) + "])"@,
        ResourceIr::FindInMap(n, t, s) => "Map("@ + spec_debug_text(n@) + ", "@ + ir_debug(*t) + ", "@ + ir_debug(*s) + ")"@,
        ResourceIr::Base64(r) => "Base64("@ + ir_debug(*r) + ")"@,
        ResourceIr::ImportValue(t) => "ImportValue("@ + spec_debug_text(t@) + ")"@,
        ResourceIr::GetAZs(r) => "GetAZs("@ + ir_debug(*r) + ")"@,
        ResourceIr::Select(i, r) => "Select("@ + nat_text(i as nat) + ", "@ + ir_debug(*r) + ")"@,
        ResourceIr::Cidr(a, b, c) => "Cidr("@ + ir_debug(*a) + ", "@ + ir_debug(*b) + ", "@ + ir_debug(*c) + ")"@,
    }
}

/// The name of a pseudo parameter.
pub fn pseudo_name_string(p: PseudoParameter) -> (r: String)
    ensures
        r@ == pseudo_name(p),
{
    match p {
        PseudoParameter::Partition => owned("Partition"),
        PseudoParameter::Region => owned("Region"),
        PseudoParameter::StackId => owned("StackId"),
        PseudoParameter::StackName => owned("StackName"),
        PseudoParameter::URLSuffix => owned("URLSuffix"),
        PseudoParameter::AccountId => owned("AccountId"),
        PseudoParameter::NotificationArns => owned("NotificationArns"),
    }
}

/// The debug rendering of an origin.
pub fn origin_debug_string(o: &Origin) -> (r: String)
    ensures
        r@ == origin_debug(*o),
{
    match o {
        Origin::Parameter => owned("Parameter"),
        Origin::LogicalId { conditional } => {
            let b = bool_string(*conditional);
            let mut s = owned("LogicalId { conditional: ");
            s.append(b.as_str());
            s.append(" }");
            s
        },
        Origin::Condition => owned("Condition"),
        Origin::GetAttribute { attribute, conditional } => {
            let a = debug_text(attribute.as_str());
            let b = bool_string(*conditional);
            let mut s = owned("GetAttribute { attribute: ");
            s.append(a.as_str());
            s.append(", conditional: ");
            s.append(b.as_str());
            s.append(" }");
            s
        },
        Origin::PseudoParameter(p) => {
            let n = pseudo_name_string(*p);
            let mut s = owned("PseudoParameter(");
            s.append(n.as_str());
            s.append(")");
            s
        },
    }
}

/// The debug rendering of a reference.
pub fn reference_debug_string(r: &Reference) -> (s: String)
    ensures
        s@ == reference_debug(*r),
{
    let o = origin_debug_string(&r.origin);
    let n = debug_text(r.name.as_str());
    let mut s = owned("Reference { origin: ");
    s.append(o.as_str());
    s.append(", name: ");
    s.append(n.as_str());
    s.append(" }");
    s
}

/// The debug rendering of a primitive type.
pub fn cfn_type_debug_str(t: CfnType) -> (r: &'static str)
    ensures
        r@ == cfn_type_debug(t),
{
    match t {
        CfnType::Boolean => "Boolean",
        CfnType::Integer => "Integer",
        CfnType::Double => "Double",
        CfnType::Long => "Long",
        CfnType::Json => "Json",
        CfnType::String => "String",
        CfnType::Timestamp => "Timestamp",
    }
}

/// The debug rendering of a structure.
pub fn structure_debug_string(st: &Structure) -> (r: String)
    ensures
        r@ == structure_debug(*st),
{
    match st {
        Structure::Simple(t) => {
            let mut s = owned("Simple(");
            s.append(cfn_type_debug_str(*t));
            s.append(")");
            s
        },
        Structure::Composite(t) => {
            let d = debug_text(t.as_str());
            let mut s = owned("Composite(");
            s.append(d.as_str());
            s.append(")");
            s
        },
    }
}

/// The debug renderings of values, separated by `, `.
fn list_debug_string(v: &Vec<ResourceIr>) -> (r: String)
    ensures
        r@ == list_debug(v@),
    decreases v,
{
    let mut s = String::new();
    let mut i: usize = 0;
    while i < v.len()
        invariant
            i <= v@.len(),
            s@ == list_debug(v@.take(i as int)),
        decreases v.len() - i,
    {
        assert(v@.take(i + 1).drop_last() =~= v@.take(i as int));
        assert(v@.take(i + 1).last() == v@[i as int]);
        assert(decreases_to!(v => v@[i as int]));
        let d = v[i].debug_string();
        if i != 0 {
            s.append(", ");
        }
        s.append(d.as_str());
        i = i + 1;
    }
    assert(v@.take(v@.len() as int) =~= v@);
    s
}

/// The debug renderings of entries, `key: value`, separated by `, `.
fn entries_debug_string(v: &Vec<(String, ResourceIr)>) -> (r: String)
    ensures
        r@ == entries_debug(v@),
    decreases v,
{
    let mut s = String::new();
    let mut i: usize = 0;
    while i < v.len()
        invariant
            i <= v@.len(),
            s@ == entries_debug(v@.take(i as int)),
        decreases v.len() - i,
    {
        assert(v@.take(i + 1).drop_last() =~= v@.take(i as int));
        assert(v@.take(i + 1).last() == v@[i as int]);
        assert(decreases_to!(v => v@[i as int].1));
        let k = debug_text(v[i].0.as_str());
        let d = v[i].1.debug_string();
        if i != 0 {
            s.append(", ");
        }
        s.append(k.as_str());
        s.append(": ");
        s.append(d.as_str());
        i = i + 1;
    }
    assert(v@.take(v@.len() as int) =~= v@);
    s
}

impl ResourceIr {
    /// The value as `Debug` renders it.
    pub fn debug_string(&self) -> (r: String)
        ensures
            r@ == ir_debug(*self),
        decreases self,
    {
        match self {
            ResourceIr::Null => owned("Null"),
            ResourceIr::Bool(b) => {
                let t = bool_string(*b);
                let mut s = owned("Bool(");
                s.append(t.as_str());
                s.append(")");
                s
            },
            ResourceIr::Number(n) => {
                let t = i64_text(*n);
                let mut s = owned("Number(");
                s.append(t.as_str());
                s.append(")");
                s
            },
            ResourceIr::Double(t) => {
                let mut s = owned("Double(");
                s.append(t.debug.as_str());
                s.append(")");
                s
            },
            ResourceIr::String(t) => {
                let d = debug_text(t.as_str());
                let mut s = owned("String(");
                s.append(d.as_str());
                s.append(")");
                s
            },
            ResourceIr::Array(st, v) => {
                let a = structure_debug_string(st);
                let b = list_debug_string(v);
                let mut s = owned("Array(");
                s.append(a.as_str());
                s.append(", [");
                s.append(b.as_str());
                s.append("])");
                s
            },
            ResourceIr::Object(st, m) => {
                let a = structure_debug_string(st);
                let b = entries_debug_string(m);
                let mut s = owned("Object(");
                s.append(a.as_str());
                s.append(", {");
                s.append(b.as_str());
                s.append("})");
                s
            },
            ResourceIr::If(c, t, f) => {
                let a = debug_text(c.as_str());
                let b = t.debug_string();
                let d = f.debug_string();
                let mut s = owned("If(");
                s.append(a.as_str());
                s.append(", ");
                s.append(b.as_str());
                s.append(", ");
                s.append(d.as_str());
                s.append(")");
                s
            },
            ResourceIr::Join(sep, v) => {
                let a = debug_text(sep.as_str());
                let b = list_debug_string(v);
                let mut s = owned("Join(");
                s.append(a.as_str());
                s.append(", [");
                s.append(b.as_str());
                s.append("])");
                s
            },
            ResourceIr::Split(sep, r) => {
                let a = debug_text(sep.as_str());
                let b = r.debug_string();
                let mut s = owned("Split(");
                s.append(a.as_str());
                s.append(", ");
                s.append(b.as_str());
                s.append(")");
                s
            },
            ResourceIr::Ref(r) => {
                let a = reference_debug_string(r);
                let mut s = owned("Ref(");
                s.append(a.as_str());
                s.append(")");
                s
            },
            ResourceIr::Sub(v) => {
                let b = list_debug_string(v);
                let mut s = owned("Sub([");
                s.append(b.as_str());
                s.append("])");
                s
            },
            ResourceIr::FindInMap(n, t, k) => {
                let a = debug_text(n.as_str());
                let b = t.debug_string();
                let d = k.debug_string();
                let mut s = owned("Map(");
                s.append(a.as_str());
                s.append(", ");
                s.append(b.as_str());
                s.append(", ");
                s.append(d.as_str());
                s.append(")");
                s
            },
            ResourceIr::Base64(r) => {
                let b = r.debug_string();
                let mut s = owned("Base64(");
                s.append(b.as_str());
                s.append(")");
                s
            },
            ResourceIr::ImportValue(t) => {
                let d = debug_text(t.as_str());
                let mut s = owned("ImportValue(");
                s.append(d.as_str());
                s.append(")");
                s
            },
            ResourceIr::GetAZs(r) => {
                let b = r.debug_string();
                let mut s = owned("GetAZs(");
                s.append(b.as_str());
                s.append(")");
                s
            },
            ResourceIr::Select(i, r) => {
                let a = usize_text(*i);
                let b = r.debug_string();
                let mut s = owned("Select(");
                s.append(a.as_str());
                s.append(", ");
                s.append(b.as_str());
                s.append(")");
                s
            },
            ResourceIr::Cidr(a, b, c) => {
                let x = a.debug_string();
                let y = b.debug_string();
                let z = c.debug_string();
                let mut s = owned("Cidr(");
                s.append(x.as_str());
                s.append(", ");
                s.append(y.as_str());
                s.append(", ");
                s.append(z.as_str());
                s.append(")");
                s
            },
        }
    }
}

} // verus!
