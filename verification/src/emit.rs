//! Java expressions for resource values, written into a code buffer.
use vstd::prelude::*;
use crate::code::{CodeBuffer, IndentOptions, Layout, Piece};
use crate::debug::ir_debug;
use crate::expr::{emit_reference, ind2, reference_text};
use crate::ir::{ResourceIr, Structure};
use crate::text::{
    bool_string, bool_text, camel_case, debug_text, eq_ignore_ascii_case, escape_debug, i64_text,
    int_text, nat_text, owned, spec_camel_case, spec_debug_text, spec_escape_debug, text_eq,
    text_eq_ignore_ascii_case, usize_text,
};

verus! {

/// The model of an optional class name.
pub open spec fn class_view(class: Option<&str>) -> Option<Seq<char>> {
    match class {
        Some(c) => Some(c@),
        None => None,
    }
}

/// The block of an `Arrays.asList(` expression.
pub open spec fn array_layout() -> Layout {
    Layout { indent: ind2(), leading: Some("Arrays.asList("@), trailing: None, trailing_newline: false }
}

/// The block of a `CfnTag` builder.
pub open spec fn tag_layout() -> Layout {
    Layout {
        indent: ind2(),
        leading: Some("CfnTag.builder()"@),
        trailing: Some(ind2() + ".build()"@),
        trailing_newline: false,
    }
}

/// The block of a property type's builder.
pub open spec fn property_layout(class: Seq<char>, property: Seq<char>) -> Layout {
    Layout {
        indent: ind2(),
        leading: Some("Cfn"@ + class + "."@ + property + "Property.builder()"@),
        trailing: Some(ind2() + ".build()"@),
        trailing_newline: false,
    }
}

/// The block of a `String.join` expression.
pub open spec fn join_layout(sep: Seq<char>) -> Layout {
    Layout {
        indent: ind2(),
        leading: Some("String.join(\""@ + sep + "\","@),
        trailing: Some(")"@),
        trailing_newline: false,
    }
}

/// A closing parenthesis after a non-empty list.
pub open spec fn close_paren(n: nat) -> Seq<Piece> {
    if n > 0 {
        seq![Piece::Text(")"@)]
    } else {
        Seq::empty()
    }
}

/// The third argument of `Fn.cidr`.
pub open spec fn mask_text(m: ResourceIr) -> Seq<char> {
    match m {
        ResourceIr::Number(n) => "\""@ + int_text(n as int) + "\""@,
        ResourceIr::String(s) => spec_debug_text(s@),
        _ => "String.valueOf("@ + ir_debug(m) + ")"@,
    }
}

/// A literal tag value as a Java string expression.
pub open spec fn literal_tag_text(ir: ResourceIr) -> Seq<char> {
    match ir {
        ResourceIr::Bool(b) => "String.valueOf("@ + bool_text(b) + ")"@,
        ResourceIr::Double(t) => "String.valueOf("@ + t.display@ + ")"@,
        ResourceIr::Number(n) => "String.valueOf("@ + int_text(n as int) + ")"@,
        _ => Seq::empty(),
    }
}

/// Whether a tag value is a literal written through `String.valueOf`.
pub open spec fn is_literal_tag(ir: ResourceIr) -> bool {
    ir is Bool || ir is Double || ir is Number
}

/// A tag's value: literals become strings, other values are written as
/// they are.
pub open spec fn tag_value_pieces(ir: ResourceIr, class: Option<Seq<char>>) -> Seq<Piece>
    decreases ir, 1nat,
{
    if is_literal_tag(ir) {
        seq![Piece::Text(literal_tag_text(ir))]
    } else {
        java_pieces(ir, class)
    }
}

/// Values written one after another, with `sep` between neighbours.
pub open spec fn separated(s: Seq<ResourceIr>, class: Option<Seq<char>>, sep: Seq<char>) -> Seq<Piece>
    decreases s, 0nat,
{
    if s.len() == 0 {
        Seq::empty()
    } else if s.len() == 1 {
        java_pieces(s[0], class)
    } else {
        separated(s.drop_last(), class, sep) + seq![Piece::Text(sep)] + java_pieces(s.last(), class)
    }
}

/// The entries of a `Map.of(` call: `"key", value`, separated by `,\n`.
pub open spec fn map_entries(s: Seq<(String, ResourceIr)>, class: Option<Seq<char>>) -> Seq<Piece>
    decreases s, 0nat,
{
    if s.len() == 0 {
        Seq::empty()
    } else if s.len() == 1 {
        seq![Piece::Text("\""@ + s[0].0@ + "\", "@)] + java_pieces(s[0].1, class)
    } else {
        map_entries(s.drop_last(), class) + seq![Piece::Text(",\n"@), Piece::Text("\""@ + s.last().0@ + "\", "@)]
            + java_pieces(s.last().1, class)
    }
}

/// The setter calls of a builder: `.key(value)` on a line each.
pub open spec fn property_entries(s: Seq<(String, ResourceIr)>, class: Option<Seq<char>>) -> Seq<Piece>
    decreases s, 0nat,
{
    if s.len() == 0 {
        Seq::empty()
    } else {
        property_entries(s.drop_last(), class) + seq![Piece::Text("."@ + spec_camel_case(s.last().0@) + "("@)]
            + java_pieces(s.last().1, class) + seq![Piece::Text(")\n"@)]
    }
}

/// The calls of a tag builder: `.key(..)` for an entry named `Key` and
/// `.value(..)` for one named `Value` (ASCII case ignored); others are
/// left out.
pub open spec fn tag_entries(s: Seq<(String, ResourceIr)>, class: Option<Seq<char>>) -> Seq<Piece>
    decreases s, 0nat,
{
    if s.len() == 0 {
        Seq::empty()
    } else {
        let k = s.last().0@;
        let v = s.last().1;
        tag_entries(s.drop_last(), class) + (if eq_ignore_ascii_case(k, "Key"@) {
            seq![Piece::Text(".key("@)] + java_pieces(v, class) + seq![Piece::Text(")\n"@)]
        } else {
            Seq::empty()
        }) + (if eq_ignore_ascii_case(k, "Value"@) {
            seq![Piece::Text(".value("@)] + tag_value_pieces(v, class) + seq![Piece::Text(")\n"@)]
        } else {
            Seq::empty()
        })
    }
}

/// The parts of a substitution joined with ` + `; literal parts become
/// Java string literals.
pub open spec fn sub_parts(s: Seq<ResourceIr>, class: Option<Seq<char>>) -> Seq<Piece>
    decreases s, 0nat,
{
    if s.len() == 0 {
        Seq::empty()
    } else {
        let p = s.last();
        let head = if s.len() == 1 {
            Seq::empty()
        } else {
            sub_parts(s.drop_last(), class) + seq![Piece::Text(" + "@)]
        };
        head + match p {
            ResourceIr::String(lit) => seq![Piece::Text("\""@ + lit@ + "\""@)],
            _ => java_pieces(p, class),
        }
    }
}

/// The Java expression of a resource value, as pieces of code.
pub open spec fn java_pieces(ir: ResourceIr, class: Option<Seq<char>>) -> Seq<Piece>
    decreases ir, 0nat,
{
    match ir {
        ResourceIr::Null => seq![Piece::Text("null"@)],
        ResourceIr::Bool(b) => seq![Piece::Text(bool_text(b))],
        ResourceIr::Double(t) => seq![Piece::Text(t.display@)],
        ResourceIr::Number(n) => seq![Piece::Text(int_text(n as int))],
        ResourceIr::String(t) => seq![Piece::Text("\""@ + t@ + "\""@)],
        ResourceIr::Array(_, arr) => seq![Piece::Open(array_layout())] + separated(arr@, class, ",\n"@)
            + close_paren(arr@.len()) + seq![Piece::Close],
        ResourceIr::Object(structure, entries) => match structure {
            Structure::Composite(property) => if property@ == "Tag"@ {
                seq![Piece::Open(tag_layout())] + tag_entries(entries@, class) + seq![Piece::Close]
            } else {
                seq![Piece::Open(property_layout(class.unwrap(), property@))] + property_entries(entries@, class)
                    + seq![Piece::Close]
            },
            Structure::Simple(_) => seq![Piece::Text("Map.of("@)] + map_entries(entries@, class) + close_paren(
                entries@.len(),
            ),
        },
        ResourceIr::Base64(inner) => match *inner {
            ResourceIr::String(b64) => seq![
                Piece::Text("new String(Base64.getDecoder().decode(\""@ + spec_escape_debug(b64@) + "\"))"@),
            ],
            _ => seq![Piece::Text("Fn.base64("@)] + java_pieces(*inner, class) + seq![Piece::Text(")"@)],
        },
        ResourceIr::Cidr(block, count, mask) => seq![Piece::Text("Fn.cidr("@)] + java_pieces(*block, class)
            + seq![Piece::Text(", "@)] + java_pieces(*count, class) + seq![
            Piece::Text(", "@),
            Piece::Text(mask_text(*mask)),
            Piece::Text(")"@),
        ],
        ResourceIr::GetAZs(region) => seq![Piece::Text("Fn.getAzs("@)] + java_pieces(*region, None) + seq![
            Piece::Text(")"@),
        ],
        ResourceIr::If(cond, t, f) => seq![Piece::Text(spec_camel_case(cond@) + " ? "@)] + java_pieces(*t, class)
            + seq![Piece::Text("\n"@ + ind2() + ": "@)] + java_pieces(*f, class),
        ResourceIr::ImportValue(t) => seq![Piece::Text("Fn.importValue(\""@ + t@ + "\")"@)],
        ResourceIr::Join(sep, list) => seq![Piece::Open(join_layout(sep@))] + separated(list@, class, ",\n"@)
            + seq![Piece::Close],
        ResourceIr::FindInMap(name, t, k) => seq![Piece::Text(spec_camel_case(name@) + ".findInMap("@)]
            + java_pieces(*t, class) + seq![Piece::Text(", "@)] + java_pieces(*k, class) + seq![
            Piece::Text(")"@),
        ],
        ResourceIr::Select(idx, list) => match *list {
            ResourceIr::Array(_, arr) => if idx < arr@.len() {
                java_pieces(arr@[idx as int], class)
            } else {
                seq![Piece::Text("null"@)]
            },
            _ => seq![Piece::Text("Fn.select("@ + nat_text(idx as nat) + ", "@)] + java_pieces(*list, class)
                + seq![Piece::Text(")"@)],
        },
        ResourceIr::Split(sep, r) => match *r {
            ResourceIr::String(s) => seq![Piece::Text(s@ + ".split(\""@ + sep@ + "\")"@)],
            _ => seq![Piece::Text("Fn.split("@ + sep@ + ", "@)] + java_pieces(*r, class) + seq![
                Piece::Text(")"@),
            ],
        },
        ResourceIr::Sub(parts) => sub_parts(parts@, class),
        ResourceIr::Ref(r) => seq![Piece::Text(reference_text(r))],
    }
}

// ---------------------------------------------------------------------------
// When writing a value succeeds
// ---------------------------------------------------------------------------

/// Every value can be written: `has_class` tells whether a resource class
/// is at hand.
pub open spec fn all_java_ok(s: Seq<ResourceIr>, has_class: bool) -> bool
    decreases s,
{
    s.len() == 0 || (java_ok(s[0], has_class) && all_java_ok(s.drop_first(), has_class))
}

/// Every entry's value can be written.
pub open spec fn entries_java_ok(s: Seq<(String, ResourceIr)>, has_class: bool) -> bool
    decreases s,
{
    s.len() == 0 || (java_ok(s[0].1, has_class) && entries_java_ok(s.drop_first(), has_class))
}

/// A value can be written: every property type's builder has a resource
/// class to name (outside of tags), and no `Select` picks the position just
/// past the end of a literal list.
pub open spec fn java_ok(ir: ResourceIr, has_class: bool) -> bool
    decreases ir,
{
    match ir {
        ResourceIr::Array(_, arr) => all_java_ok(arr@, has_class),
        ResourceIr::Object(structure, entries) => match structure {
            Structure::Composite(property) => (property@ != "Tag"@ ==> has_class) && entries_java_ok(
                entries@,
                has_class,
            ),
            Structure::Simple(_) => entries_java_ok(entries@, has_class),
        },
        ResourceIr::Base64(inner) => java_ok(*inner, has_class),
        ResourceIr::Cidr(block, count, _) => java_ok(*block, has_class) && java_ok(*count, has_class),
        ResourceIr::GetAZs(region) => java_ok(*region, false),
        ResourceIr::If(_, t, f) => java_ok(*t, has_class) && java_ok(*f, has_class),
        ResourceIr::Join(_, list) => all_java_ok(list@, has_class),
        ResourceIr::FindInMap(_, t, k) => java_ok(*t, has_class) && java_ok(*k, has_class),
        ResourceIr::Select(idx, list) => match *list {
            ResourceIr::Array(_, arr) => idx != arr@.len() && (idx < arr@.len() ==> java_ok(
                arr@[idx as int],
                has_class,
            )),
            _ => java_ok(*list, has_class),
        },
        ResourceIr::Split(_, r) => java_ok(*r, has_class),
        ResourceIr::Sub(parts) => all_java_ok(parts@, has_class),
        _ => true,
    }
}

// ---------------------------------------------------------------------------
// Writing values
// ---------------------------------------------------------------------------

proof fn lemma_skip_step<T>(s: Seq<T>, i: int)
    requires
        0 <= i < s.len(),
    ensures
        s.skip(i)[0] == s[i],
        s.skip(i).drop_first() == s.skip(i + 1),
        s.skip(i).len() > 0,
{
    assert(s.skip(i).drop_first() =~= s.skip(i + 1));
}

proof fn lemma_take_step<T>(s: Seq<T>, i: int)
    requires
        0 <= i < s.len(),
    ensures
        s.take(i + 1).drop_last() == s.take(i),
        s.take(i + 1).last() == s[i],
        s.take(i + 1).len() == i + 1,
{
    assert(s.take(i + 1).drop_last() =~= s.take(i));
}

/// Writes values with `sep` between neighbours.
fn emit_separated(items: &Vec<ResourceIr>, output: &mut CodeBuffer, class: Option<&str>, sep: &str)
    requires
        all_java_ok(items@, class is Some),
    ensures
        final(output)@ == old(output)@ + separated(items@, class_view(class), sep@),
    decreases items, 0nat,
{
    let ghost base = output@;
    assert(items@.skip(0) =~= items@);
    let mut i: usize = 0;
    while i < items.len()
        invariant
            i <= items@.len(),
            output@ == base + separated(items@.take(i as int), class_view(class), sep@),
            all_java_ok(items@.skip(i as int), class is Some),
        decreases items.len() - i,
    {
        proof {
            lemma_take_step(items@, i as int);
            lemma_skip_step(items@, i as int);
        }
        assert(decreases_to!(items => items@[i as int]));
        if i != 0 {
            output.text(sep);
        }
        emit_java(&items[i], output, class);
        i = i + 1;
    }
    assert(items@.take(items@.len() as int) =~= items@);
}

/// Writes the entries of a `Map.of(` call.
fn emit_map_entries(entries: &Vec<(String, ResourceIr)>, output: &mut CodeBuffer, class: Option<&str>)
    requires
        entries_java_ok(entries@, class is Some),
    ensures
        final(output)@ == old(output)@ + map_entries(entries@, class_view(class)),
    decreases entries, 0nat,
{
    let ghost base = output@;
    assert(entries@.skip(0) =~= entries@);
    let mut i: usize = 0;
    while i < entries.len()
        invariant
            i <= entries@.len(),
            output@ == base + map_entries(entries@.take(i as int), class_view(class)),
            entries_java_ok(entries@.skip(i as int), class is Some),
        decreases entries.len() - i,
    {
        proof {
            lemma_take_step(entries@, i as int);
            lemma_skip_step(entries@, i as int);
        }
        assert(decreases_to!(entries => entries@[i as int].1));
        if i != 0 {
            output.text(",\n");
        }
        let mut key = owned("\"");
        key.append(entries[i].0.as_str());
        key.append("\", ");
        output.text(key.as_str());
        emit_java(&entries[i].1, output, class);
        i = i + 1;
    }
    assert(entries@.take(entries@.len() as int) =~= entries@);
}

/// Writes the setter calls of a builder.
pub(crate) fn emit_property_entries(entries: &Vec<(String, ResourceIr)>, output: &mut CodeBuffer, class: Option<&str>)
    requires
        entries_java_ok(entries@, class is Some),
    ensures
        final(output)@ == old(output)@ + property_entries(entries@, class_view(class)),
    decreases entries, 0nat,
{
    let ghost base = output@;
    assert(entries@.skip(0) =~= entries@);
    let mut i: usize = 0;
    while i < entries.len()
        invariant
            i <= entries@.len(),
            output@ == base + property_entries(entries@.take(i as int), class_view(class)),
            entries_java_ok(entries@.skip(i as int), class is Some),
        decreases entries.len() - i,
    {
        proof {
            lemma_take_step(entries@, i as int);
            lemma_skip_step(entries@, i as int);
        }
        assert(decreases_to!(entries => entries@[i as int].1));
        let cc = camel_case(entries[i].0.as_str());
        emit_property_setter(cc.as_str(), &entries[i].1, output, class);
        i = i + 1;
    }
    assert(entries@.take(entries@.len() as int) =~= entries@);
}

/// The Java expression that decodes a Base64 text, given as the escaped
/// contents `escaped` of a string literal.
pub fn base64_decoding(escaped: &str) -> (r: String)
    ensures
        r@ == "new String(Base64.getDecoder().decode(\""@ + escaped@ + "\"))"@,
{
    let mut s = owned("new String(Base64.getDecoder().decode(\"");
    s.append(escaped);
    s.append("\"))");
    s
}

/// Writes the setter of a property builder whose name has the camel-case
/// form `cc`, with its value.
pub fn emit_property_setter(cc: &str, value: &ResourceIr, output: &mut CodeBuffer, class: Option<&str>)
    requires
        java_ok(*value, class is Some),
    ensures
        final(output)@ == old(output)@ + seq![Piece::Text("."@ + cc@ + "("@)] + java_pieces(*value, class_view(class))
            + seq![Piece::Text(")\n"@)],
    decreases value, 2nat,
{
    let mut setter = owned(".");
    setter.append(cc);
    setter.append("(");
    output.text(setter.as_str());
    emit_java(value, output, class);
    output.text(")\n");
}

/// Writes the calls of a tag builder for one entry.
fn emit_tag_entry(key: &str, value: &ResourceIr, output: &mut CodeBuffer, class: Option<&str>)
    requires
        java_ok(*value, class is Some),
    ensures
        final(output)@ == old(output)@ + (if eq_ignore_ascii_case(key@, "Key"@) {
            seq![Piece::Text(".key("@)] + java_pieces(*value, class_view(class)) + seq![Piece::Text(")\n"@)]
        } else {
            Seq::empty()
        }) + (if eq_ignore_ascii_case(key@, "Value"@) {
            seq![Piece::Text(".value("@)] + tag_value_pieces(*value, class_view(class)) + seq![Piece::Text(")\n"@)]
        } else {
            Seq::empty()
        }),
    decreases value, 2nat,
{
    let ghost base = output@;
    if text_eq_ignore_ascii_case(key, "Key") {
        output.text(".key(");
        emit_java(value, output, class);
        output.text(")\n");
    }
    let ghost middle = output@;
    if text_eq_ignore_ascii_case(key, "Value") {
        output.text(".value(");
        emit_tag_value(value, output, class);
        output.text(")\n");
    }
    assert(output@ =~= base + middle.skip(base.len() as int) + output@.skip(middle.len() as int));
}

/// Writes the calls of a tag builder.
#[verifier::spinoff_prover]
#[verifier::rlimit(30)]
fn emit_tag_entries(entries: &Vec<(String, ResourceIr)>, output: &mut CodeBuffer, class: Option<&str>)
    requires
        entries_java_ok(entries@, class is Some),
    ensures
        final(output)@ == old(output)@ + tag_entries(entries@, class_view(class)),
    decreases entries, 0nat,
{
    let ghost base = output@;
    assert(entries@.skip(0) =~= entries@);
    let mut i: usize = 0;
    while i < entries.len()
        invariant
            i <= entries@.len(),
            output@ == base + tag_entries(entries@.take(i as int), class_view(class)),
            entries_java_ok(entries@.skip(i as int), class is Some),
        decreases entries.len() - i,
    {
        proof {
            lemma_take_step(entries@, i as int);
            lemma_skip_step(entries@, i as int);
        }
        assert(decreases_to!(entries => entries@[i as int].1));
        emit_tag_entry(entries[i].0.as_str(), &entries[i].1, output, class);
        i = i + 1;
    }
    assert(entries@.take(entries@.len() as int) =~= entries@);
}

/// Writes the parts of a substitution joined with ` + `.
fn emit_sub_parts(parts: &Vec<ResourceIr>, output: &mut CodeBuffer, class: Option<&str>)
    requires
        all_java_ok(parts@, class is Some),
    ensures
        final(output)@ == old(output)@ + sub_parts(parts@, class_view(class)),
    decreases parts, 0nat,
{
    let ghost base = output@;
    assert(parts@.skip(0) =~= parts@);
    let mut i: usize = 0;
    while i < parts.len()
        invariant
            i <= parts@.len(),
            output@ == base + sub_parts(parts@.take(i as int), class_view(class)),
            all_java_ok(parts@.skip(i as int), class is Some),
        decreases parts.len() - i,
    {
        proof {
            lemma_take_step(parts@, i as int);
            lemma_skip_step(parts@, i as int);
        }
        assert(decreases_to!(parts => parts@[i as int]));
        if i != 0 {
            output.text(" + ");
        }
        match &parts[i] {
            ResourceIr::String(lit) => {
                let mut s = owned("\"");
                s.append(lit.as_str());
                s.append("\"");
                output.text(s.as_str());
            },
            other => emit_java(other, output, class),
        }
        i = i + 1;
    }
    assert(parts@.take(parts@.len() as int) =~= parts@);
}

/// Writes a tag's value: a literal as a Java string, anything else as it
/// is.
pub fn emit_tag_value(this: &ResourceIr, output: &mut CodeBuffer, class: Option<&str>)
    requires
        java_ok(*this, class is Some),
    ensures
        final(output)@ == old(output)@ + tag_value_pieces(*this, class_view(class)),
    decreases this, 1nat,
{
    match this {
        ResourceIr::Bool(b) => {
            let t = bool_string(*b);
            let mut s = owned("String.valueOf(");
            s.append(t.as_str());
            s.append(")");
            output.text(s.as_str());
        },
        ResourceIr::Double(number) => {
            let mut s = owned("String.valueOf(");
            s.append(number.display.as_str());
            s.append(")");
            output.text(s.as_str());
        },
        ResourceIr::Number(number) => {
            let t = i64_text(*number);
            let mut s = owned("String.valueOf(");
            s.append(t.as_str());
            s.append(")");
            output.text(s.as_str());
        },
        other => emit_java(other, output, class),
    }
}

/// Writes the Java expression of a resource value. `class` is the name of
/// the resource type whose properties are being written, if any; builders
/// of property types are named after it.
pub fn emit_java(this: &ResourceIr, output: &mut CodeBuffer, class: Option<&str>)
    requires
        java_ok(*this, class is Some),
    ensures
        final(output)@ == old(output)@ + java_pieces(*this, class_view(class)),
    decreases this, 0nat,
{
    match this {
        ResourceIr::Null => output.text("null"),
        ResourceIr::Bool(b) => {
            let t = bool_string(*b);
            output.text(t.as_str());
        },
        ResourceIr::Double(number) => output.text(number.display.as_str()),
        ResourceIr::Number(number) => {
            let t = i64_text(*number);
            output.text(t.as_str());
        },
        ResourceIr::String(text) => {
            let mut s = owned("\"");
            s.append(text.as_str());
            s.append("\"");
            output.text(s.as_str());
        },
        ResourceIr::Array(_, array) => {
            output.indent_with_options(
                IndentOptions {
                    indent: owned("        "),
                    leading: Some(owned("Arrays.asList(")),
                    trailing: None,
                    trailing_newline: false,
                },
            );
            emit_separated(array, output, class, ",\n");
            if array.len() > 0 {
                output.text(")");
            }
            output.close();
        },
        ResourceIr::Object(structure, entries) => match structure {
            Structure::Composite(property) => {
                if text_eq(property.as_str(), "Tag") {
                    output.indent_with_options(
                        IndentOptions {
                            indent: owned("        "),
                            leading: Some(owned("CfnTag.builder()")),
                            trailing: Some(owned("        .build()")),
                            trailing_newline: false,
                        },
                    );
                    assert(("        "@ + ".build()"@) =~= "        .build()"@) by {
                        reveal_strlit("        ");
                        reveal_strlit(".build()");
                        reveal_strlit("        .build()");
                    }
                    emit_tag_entries(entries, output, class);
                    output.close();
                } else {
                    let c = class.unwrap();
                    let mut leading = owned("Cfn");
                    leading.append(c);
                    leading.append(".");
                    leading.append(property.as_str());
                    leading.append("Property.builder()");
                    output.indent_with_options(
                        IndentOptions {
                            indent: owned("        "),
                            leading: Some(leading),
                            trailing: Some(owned("        .build()")),
                            trailing_newline: false,
                        },
                    );
                    assert(("        "@ + ".build()"@) =~= "        .build()"@) by {
                        reveal_strlit("        ");
                        reveal_strlit(".build()");
                        reveal_strlit("        .build()");
                    }
                    emit_property_entries(entries, output, class);
                    output.close();
                }
            },
            Structure::Simple(_) => {
                output.text("Map.of(");
                emit_map_entries(entries, output, class);
                if entries.len() > 0 {
                    output.text(")");
                }
            },
        },
        ResourceIr::Base64(base64) => match &**base64 {
            ResourceIr::String(b64) => {
                let e = escape_debug(b64.as_str());
                let s = base64_decoding(e.as_str());
                output.text(s.as_str());
            },
            other => {
                output.text("Fn.base64(");
                emit_java(other, output, class);
                output.text(")");
            },
        },
        ResourceIr::Cidr(cidr_block, count, mask) => {
            output.text("Fn.cidr(");
            emit_java(cidr_block, output, class);
            output.text(", ");
            emit_java(count, output, class);
            output.text(", ");
            match &**mask {
                ResourceIr::Number(m) => {
                    let t = i64_text(*m);
                    let mut s = owned("\"");
                    s.append(t.as_str());
                    s.append("\"");
                    output.text(s.as_str());
                },
                ResourceIr::String(m) => {
                    let t = debug_text(m.as_str());
                    output.text(t.as_str());
                },
                m => {
                    let t = m.debug_string();
                    let mut s = owned("String.valueOf(");
                    s.append(t.as_str());
                    s.append(")");
                    output.text(s.as_str());
                },
            }
            output.text(")");
        },
        ResourceIr::GetAZs(region) => {
            output.text("Fn.getAzs(");
            emit_java(region, output, None);
            output.text(")");
        },
        ResourceIr::If(cond_name, if_true, if_false) => {
            let mut s = camel_case(cond_name.as_str());
            s.append(" ? ");
            output.text(s.as_str());
            emit_java(if_true, output, class);
            let mut e = owned("\n");
            e.append("        ");
            e.append(": ");
            output.text(e.as_str());
            emit_java(if_false, output, class);
        },
        ResourceIr::ImportValue(text) => {
            let mut s = owned("Fn.importValue(\"");
            s.append(text.as_str());
            s.append("\")");
            output.text(s.as_str());
        },
        ResourceIr::Join(sep, list) => {
            let mut leading = owned("String.join(\"");
            leading.append(sep.as_str());
            leading.append("\",");
            output.indent_with_options(
                IndentOptions {
                    indent: owned("        "),
                    leading: Some(leading),
                    trailing: Some(owned(")")),
                    trailing_newline: false,
                },
            );
            emit_separated(list, output, class, ",\n");
            output.close();
        },
        ResourceIr::FindInMap(name, tlk, slk) => {
            let mut s = camel_case(name.as_str());
            s.append(".findInMap(");
            output.text(s.as_str());
            emit_java(tlk, output, class);
            output.text(", ");
            emit_java(slk, output, class);
            output.text(")");
        },
        ResourceIr::Select(idx, list) => match &**list {
            ResourceIr::Array(_, array) => {
                if *idx <= array.len() {
                    assert(decreases_to!(this => array@[*idx as int]));
                    emit_java(&array[*idx], output, class);
                } else {
                    output.text("null");
                }
            },
            other => {
                let t = usize_text(*idx);
                let mut s = owned("Fn.select(");
                s.append(t.as_str());
                s.append(", ");
                output.text(s.as_str());
                emit_java(other, output, class);
                output.text(")");
            },
        },
        ResourceIr::Split(separator, resource) => match &**resource {
            ResourceIr::String(st) => {
                let mut s = owned(st.as_str());
                s.append(".split(\"");
                s.append(separator.as_str());
                s.append("\")");
                output.text(s.as_str());
            },
            other => {
                let mut s = owned("Fn.split(");
                s.append(separator.as_str());
                s.append(", ");
                output.text(s.as_str());
                emit_java(other, output, class);
                output.text(")");
            },
        },
        ResourceIr::Sub(parts) => emit_sub_parts(parts, output, class),
        ResourceIr::Ref(reference) => {
            let t = emit_reference(reference);
            output.text(t.as_str());
        },
    }
}

// ---------------------------------------------------------------------------
// Whether a value can be written
// ---------------------------------------------------------------------------

/// Whether every value can be written.
fn can_emit_all(items: &Vec<ResourceIr>, has_class: bool) -> (r: bool)
    ensures
        r == all_java_ok(items@, has_class),
    decreases items,
{
    let mut ok = true;
    let mut i: usize = items.len();
    assert(items@.skip(items@.len() as int) =~= Seq::<ResourceIr>::empty());
    while i > 0
        invariant
            i <= items@.len(),
            ok == all_java_ok(items@.skip(i as int), has_class),
        decreases i,
    {
        proof {
            lemma_skip_step(items@, i - 1);
        }
        assert(decreases_to!(items => items@[i - 1]));
        let here = can_emit(&items[i - 1], has_class);
        ok = here && ok;
        i = i - 1;
    }
    assert(items@.skip(0) =~= items@);
    ok
}

/// Whether every entry's value can be written.
pub(crate) fn can_emit_entries(entries: &Vec<(String, ResourceIr)>, has_class: bool) -> (r: bool)
    ensures
        r == entries_java_ok(entries@, has_class),
    decreases entries,
{
    let mut ok = true;
    let mut i: usize = entries.len();
    assert(entries@.skip(entries@.len() as int) =~= Seq::<(String, ResourceIr)>::empty());
    while i > 0
        invariant
            i <= entries@.len(),
            ok == entries_java_ok(entries@.skip(i as int), has_class),
        decreases i,
    {
        proof {
            lemma_skip_step(entries@, i - 1);
        }
        assert(decreases_to!(entries => entries@[i - 1].1));
        let here = can_emit(&entries[i - 1].1, has_class);
        ok = here && ok;
        i = i - 1;
    }
    assert(entries@.skip(0) =~= entries@);
    ok
}

/// Whether a value can be written (`emit_java`'s requirement), with or
/// without a resource class at hand.
pub fn can_emit(this: &ResourceIr, has_class: bool) -> (r: bool)
    ensures
        r == java_ok(*this, has_class),
    decreases this,
{
    match this {
        ResourceIr::Array(_, arr) => can_emit_all(arr, has_class),
        ResourceIr::Object(structure, entries) => match structure {
            Structure::Composite(property) => {
                let needs_class = !text_eq(property.as_str(), "Tag");
                if needs_class && !has_class {
                    false
                } else {
                    can_emit_entries(entries, has_class)
                }
            },
            Structure::Simple(_) => can_emit_entries(entries, has_class),
        },
        ResourceIr::Base64(inner) => can_emit(inner, has_class),
        ResourceIr::Cidr(block, count, _) => can_emit(block, has_class) && can_emit(count, has_class),
        ResourceIr::GetAZs(region) => can_emit(region, false),
        ResourceIr::If(_, t, f) => can_emit(t, has_class) && can_emit(f, has_class),
        ResourceIr::Join(_, list) => can_emit_all(list, has_class),
        ResourceIr::FindInMap(_, t, k) => can_emit(t, has_class) && can_emit(k, has_class),
        ResourceIr::Select(idx, list) => match &**list {
            ResourceIr::Array(_, arr) => {
                if *idx == arr.len() {
                    false
                } else if *idx < arr.len() {
                    assert(decreases_to!(this => arr@[*idx as int]));
                    can_emit(&arr[*idx], has_class)
                } else {
                    true
                }
            },
            other => can_emit(other, has_class),
        },
        ResourceIr::Split(_, r) => can_emit(r, has_class),
        ResourceIr::Sub(parts) => can_emit_all(parts, has_class),
        _ => true,
    }
}

} // verus!
