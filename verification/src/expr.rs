//! Java expressions for references, pseudo parameters and conditions.
use vstd::prelude::*;
use crate::ir::{spec_is_simple, ConditionIr, Origin, PseudoParameter, Reference};
use crate::text::{camel_case, debug_text, owned, pascal_case, spec_camel_case, spec_debug_text, spec_pascal_case};

verus! {

/// One level of indentation.
pub open spec fn ind1() -> Seq<char> {
    "    "@
}

/// Two levels of indentation.
pub open spec fn ind2() -> Seq<char> {
    "        "@
}

/// The Java accessor of a pseudo parameter on the stack.
pub open spec fn pseudo_param_text(p: PseudoParameter) -> Seq<char> {
    match p {
        PseudoParameter::Partition => "this.getPartition()"@,
        PseudoParameter::Region => "this.getRegion()"@,
        PseudoParameter::StackId => "this.getStackId()"@,
        PseudoParameter::StackName => "this.getStackName()"@,
        PseudoParameter::URLSuffix => "this.getUrlSuffix()"@,
        PseudoParameter::AccountId => "this.getAccount()"@,
        PseudoParameter::NotificationArns => "this.getNotificationArns()"@,
    }
}

/// The Java expression of a reference, given the camel-case form `cc` of
/// its name and the Pascal-case form `pc` of its attribute.
pub open spec fn reference_text_with(r: Reference, cc: Seq<char>, pc: Seq<char>) -> Seq<char> {
    match r.origin {
        Origin::LogicalId { conditional } => if conditional {
            "Optional.of("@ + cc + ".isPresent() ? "@ + cc + ".get().getRef()\n"@ + ind2() + ": Optional.empty())"@
        } else {
            cc + ".getRef()"@
        },
        Origin::GetAttribute { conditional, attribute } => if conditional {
            "Optional.of("@ + cc + ".isPresent() ? "@ + cc + ".get().getAttr"@ + pc + "()\n"@ + ind2()
                + ": Optional.empty())"@
        } else {
            cc + ".getAttr"@ + pc + "()"@
        },
        Origin::PseudoParameter(p) => pseudo_param_text(p),
        Origin::Parameter => cc,
        Origin::Condition => r.name@,
    }
}

/// The Pascal-case form of a reference's attribute; empty when it names
/// no attribute.
pub open spec fn attribute_pascal(r: Reference) -> Seq<char> {
    match r.origin {
        Origin::GetAttribute { attribute, .. } => spec_pascal_case(attribute@),
        _ => Seq::empty(),
    }
}

/// The Java expression of a reference.
pub open spec fn reference_text(r: Reference) -> Seq<char> {
    reference_text_with(r, spec_camel_case(r.name@), attribute_pascal(r))
}

/// The Java expressions of conditions, separated by `sep`.
pub open spec fn conditions_text(s: Seq<ConditionIr>, sep: Seq<char>) -> Seq<char>
    decreases s,
{
    if s.len() == 0 {
        Seq::empty()
    } else if s.len() == 1 {
        condition_text(s[0])
    } else {
        conditions_text(s.drop_last(), sep) + sep + condition_text(s.last())
    }
}

/// The Java boolean expression of a condition.
pub open spec fn condition_text(c: ConditionIr) -> Seq<char>
    decreases c,
{
    match c {
        ConditionIr::Ref(r) => reference_text(r),
        ConditionIr::Str(s) => spec_debug_text(s@),
        ConditionIr::Condition(x) => spec_camel_case(x@),
        ConditionIr::And(list) => "("@ + conditions_text(list@, " && "@) + ")"@,
        ConditionIr::Or(list) => "("@ + conditions_text(list@, " || "@) + ")"@,
        ConditionIr::Not(inner) => if spec_is_simple(*inner) {
            "!"@ + condition_text(*inner)
        } else {
            "!("@ + condition_text(*inner) + ")"@
        },
        ConditionIr::Equals(l, r) => condition_text(*l) + ".equals("@ + condition_text(*r) + ")"@,
        ConditionIr::FindInMap(_, t, k) => "Fn.map("@ + condition_text(*t) + ", "@ + condition_text(*k) + ")"@,
        ConditionIr::Split(sep, l) => "Arrays.asList("@ + condition_text(*l) + ".split(\""@ + sep@ + "\"))"@,
        ConditionIr::Select(index, s) => "Fn.select("@ + spec_debug_text(index@) + ", "@ + condition_text(*s) + ")"@,
    }
}

/// The Java accessor of a pseudo parameter on the stack.
pub fn get_pseudo_param(param: PseudoParameter) -> (r: String)
    ensures
        r@ == pseudo_param_text(param),
{
    match param {
        PseudoParameter::Partition => owned("this.getPartition()"),
        PseudoParameter::Region => owned("this.getRegion()"),
        PseudoParameter::StackId => owned("this.getStackId()"),
        PseudoParameter::StackName => owned("this.getStackName()"),
        PseudoParameter::URLSuffix => owned("this.getUrlSuffix()"),
        PseudoParameter::AccountId => owned("this.getAccount()"),
        PseudoParameter::NotificationArns => owned("this.getNotificationArns()"),
    }
}

/// The Java expression of a reference: a resource's `getRef()` or
/// attribute getter (wrapped in an `Optional` when the resource is
/// conditional), a parameter's variable, a pseudo parameter's accessor, or
/// a condition's name.
pub fn emit_reference(reference: &Reference) -> (r: String)
    ensures
        r@ == reference_text(*reference),
{
    let cc = camel_case(reference.name.as_str());
    let pc = match &reference.origin {
        Origin::GetAttribute { attribute, .. } => pascal_case(attribute.as_str()),
        _ => String::new(),
    };
    reference_from_cases(reference, cc, pc)
}

/// The Java expression of a reference, given the camel-case form `cc` of
/// its name and the Pascal-case form `pc` of its attribute.
pub fn reference_from_cases(reference: &Reference, cc: String, pc: String) -> (r: String)
    ensures
        r@ == reference_text_with(*reference, cc@, pc@),
{
    match &reference.origin {
        Origin::LogicalId { conditional } => {
            if *conditional {
                let mut s = owned("Optional.of(");
                s.append(cc.as_str());
                s.append(".isPresent() ? ");
                s.append(cc.as_str());
                s.append(".get().getRef()\n");
                s.append("        ");
                s.append(": Optional.empty())");
                s
            } else {
                let mut s = cc;
                s.append(".getRef()");
                s
            }
        },
        Origin::GetAttribute { conditional, .. } => {
            if *conditional {
                let mut s = owned("Optional.of(");
                s.append(cc.as_str());
                s.append(".isPresent() ? ");
                s.append(cc.as_str());
                s.append(".get().getAttr");
                s.append(pc.as_str());
                s.append("()\n");
                s.append("        ");
                s.append(": Optional.empty())");
                s
            } else {
                let mut s = cc;
                s.append(".getAttr");
                s.append(pc.as_str());
                s.append("()");
                s
            }
        },
        Origin::PseudoParameter(param) => get_pseudo_param(*param),
        Origin::Parameter => cc,
        Origin::Condition => owned(reference.name.as_str()),
    }
}

/// The Java expressions of conditions, joined with `sep`.
pub fn get_condition(list: &Vec<ConditionIr>, sep: &str) -> (r: String)
    ensures
        r@ == conditions_text(list@, sep@),
    decreases list,
{
    let mut s = String::new();
    let mut i: usize = 0;
    while i < list.len()
        invariant
            i <= list@.len(),
            s@ == conditions_text(list@.take(i as int), sep@),
        decreases list.len() - i,
    {
        assert(list@.take(i + 1).drop_last() =~= list@.take(i as int));
        assert(list@.take(i + 1).last() == list@[i as int]);
        assert(decreases_to!(list => list@[i as int]));
        let c = emit_conditions(&list[i]);
        if i != 0 {
            s.append(sep);
        }
        s.append(c.as_str());
        i = i + 1;
    }
    assert(list@.take(list@.len() as int) =~= list@);
    s
}

/// The Java boolean expression of a condition.
pub fn emit_conditions(condition: &ConditionIr) -> (r: String)
    ensures
        r@ == condition_text(*condition),
    decreases condition,
{
    match condition {
        ConditionIr::Ref(reference) => emit_reference(reference),
        ConditionIr::Str(s) => debug_text(s.as_str()),
        ConditionIr::Condition(x) => camel_case(x.as_str()),
        ConditionIr::And(list) => {
            let and = get_condition(list, " && ");
            let mut s = owned("(");
            s.append(and.as_str());
            s.append(")");
            s
        },
        ConditionIr::Or(list) => {
            let or = get_condition(list, " || ");
            let mut s = owned("(");
            s.append(or.as_str());
            s.append(")");
            s
        },
        ConditionIr::Not(cond) => {
            let inner = emit_conditions(cond);
            if cond.is_simple() {
                let mut s = owned("!");
                s.append(inner.as_str());
                s
            } else {
                let mut s = owned("!(");
                s.append(inner.as_str());
                s.append(")");
                s
            }
        },
        ConditionIr::Equals(lhs, rhs) => {
            let mut s = emit_conditions(lhs);
            let r = emit_conditions(rhs);
            s.append(".equals(");
            s.append(r.as_str());
            s.append(")");
            s
        },
        ConditionIr::FindInMap(_, tlk, slk) => {
            let a = emit_conditions(tlk);
            let b = emit_conditions(slk);
            let mut s = owned("Fn.map(");
            s.append(a.as_str());
            s.append(", ");
            s.append(b.as_str());
            s.append(")");
            s
        },
        ConditionIr::Split(sep, l1) => {
            let st = emit_conditions(l1);
            let mut s = owned("Arrays.asList(");
            s.append(st.as_str());
            s.append(".split(\"");
            s.append(sep.as_str());
            s.append("\"))");
            s
        },
        ConditionIr::Select(index, st) => {
            let i = debug_text(index.as_str());
            let b = emit_conditions(st);
            let mut s = owned("Fn.select(");
            s.append(i.as_str());
            s.append(", ");
            s.append(b.as_str());
            s.append(")");
            s
        },
    }
}

} // verus!
