//! The source text of each part of a synthesized stack class, as rendering
//! lays it out, and the laws that give it.
use vstd::prelude::*;
use crate::code::{
    close_all, close_block, indent_prefix, line_of, nl, plain_layout, put_char, put_text, rendered, run, start,
    Cursor, Layout, Piece,
};
use crate::expr::{ind1, ind2};
use crate::expr::condition_text;
use crate::emit::java_pieces;
use crate::ir::{CloudformationProgramIr, ConditionInstruction, ImportInstruction, OutputInstruction, ResourceIr};
use crate::java::{
    attribute_pieces, class_layout, condition_lines, ctor_layout, dependency_pieces, field_type_text, full_ctor,
    header_pieces, import_lines, import_text, mapping_pieces, mappings_pieces, metadata_pieces, output_field_lines,
    output_field_pieces, output_getters, output_head_pieces, output_pieces, outputs_pieces, param_lines, params_of, policy_pieces,
    prop_pieces, props_ctor, props_pieces, resource_pieces, resources_pieces, short_ctor, stack_definition_pieces,
    synthesis_pieces, write_mappings_pieces, ParamModel,
};
use crate::laws::{
    balanced, law_values_close_their_blocks, lemma_balanced_text, lemma_mappings_texts, lemma_outputs_balanced, lemma_resources_balanced,
    lemma_texts_balanced, texts_only,
};
use crate::layout::{
    lay, laid_line, lemma_indent_push, lemma_lay_no_indent, lemma_put_text, lemma_run_balanced,
    lemma_run_close_plain, lemma_run_close_trailing, lemma_run_concat, lemma_run_line, lemma_run_open_leading,
    lemma_run_open_plain, lemma_run_section, moved, section, section_ends_line, lemma_run_ends_line,
    lemma_run_one, lemma_laid_line_plain, ends_line, lemma_run_break,
};
use crate::text::{repeat_text, seq_contains, spec_camel_case, spec_pascal_case};

verus! {

// ---------------------------------------------------------------------------
// Constructors
// ---------------------------------------------------------------------------

/// The parameter lines of the full constructor, whose body is indented by
/// `b`: one line per parameter, its type and name, each but the last
/// ending with a comma and the last closing the parameter list.
pub open spec fn params_text(b: Seq<char>, s: Seq<ParamModel>, total: nat) -> Seq<char>
    decreases s.len(),
{
    if s.len() == 0 {
        Seq::empty()
    } else {
        let q = s.last();
        let end = if s.len() == total {
            ") {"@
        } else {
            ","@
        };
        params_text(b, s.drop_last(), total) + laid_line(b + ind1(), q.java_type + " "@ + q.name + end)
    }
}

/// The block of the last constructor: the full one when there are
/// parameters, else the one with stack properties.
pub open spec fn last_ctor(props: Seq<ParamModel>, stack: Seq<char>) -> Layout {
    if props.len() == 0 {
        ctor_layout(props_ctor(stack))
    } else {
        ctor_layout(full_ctor(stack))
    }
}

/// The constructors written under the indentation `p`, up to the body of
/// the last one: the constructor without properties, which passes a null
/// on; the one with stack properties, which either calls the parent class
/// (with no parameters) or passes a null for each parameter on to the full
/// constructor; and the full constructor, its parameters one per line and
/// its call of the parent class.
pub open spec fn ctors_text(p: Seq<char>, props: Seq<ParamModel>, stack: Seq<char>) -> Seq<char> {
    let b = p + ind1();
    laid_line(p, short_ctor(stack)) + laid_line(b, "super(scope, id, null);"@) + laid_line(p, "}"@) + nl()
        + laid_line(p, props_ctor(stack)) + if props.len() == 0 {
        laid_line(b, "super(scope, id, props);"@)
    } else {
        laid_line(b, "this(scope, id, props"@ + repeat_text(", null"@, props.len()) + ");"@) + laid_line(p, "}"@)
            + nl() + laid_line(p, full_ctor(stack)) + params_text(b, props, props.len()) + laid_line(
            b,
            "super(scope, id, props);"@,
        ) + nl()
    }
}

proof fn lemma_run_param_lines(cur: Cursor, s: Seq<ParamModel>, total: nat)
    requires
        cur.at_line_start,
    ensures
        run(cur, param_lines(s, total)) == moved(cur, params_text(indent_prefix(cur.frames), s, total)),
    decreases s.len(),
{
    let b = indent_prefix(cur.frames);
    if s.len() == 0 {
        assert(cur.out + Seq::<char>::empty() =~= cur.out);
    } else {
        let q = s.last();
        let end = if s.len() == total {
            ") {"@
        } else {
            ","@
        };
        let l = plain_layout(ind1());
        let a = param_lines(s.drop_last(), total);
        lemma_run_param_lines(cur, s.drop_last(), total);
        let c1 = run(cur, a);
        lemma_run_concat(cur, a, seq![Piece::Open(l)]);
        lemma_run_open_plain(c1, l);
        let c2 = run(c1, seq![Piece::Open(l)]);
        lemma_indent_push(cur.frames, l);
        lemma_run_concat(cur, a + seq![Piece::Open(l)], line_of(q.java_type + " "@ + q.name + end));
        lemma_run_line(c2, q.java_type + " "@ + q.name + end);
        let c3 = run(c2, line_of(q.java_type + " "@ + q.name + end));
        lemma_run_concat(cur, a + seq![Piece::Open(l)] + line_of(q.java_type + " "@ + q.name + end), seq![Piece::Close]);
        assert(c3.frames.drop_last() =~= cur.frames);
        lemma_run_close_plain(c3);
        assert(c3.out =~= cur.out + params_text(b, s, total));
    }
}

/// The first constructors, up to the opening of the one with stack
/// properties.
pub open spec fn ctor_head(stack: Seq<char>) -> Seq<Piece> {
    seq![Piece::Open(ctor_layout(short_ctor(stack)))] + line_of("super(scope, id, null);"@) + seq![
        Piece::Close,
        Piece::Text(nl()),
        Piece::Open(ctor_layout(props_ctor(stack))),
    ]
}

/// What follows the opening of the constructor with stack properties, when
/// there are parameters.
pub open spec fn ctor_tail(props: Seq<ParamModel>, stack: Seq<char>) -> Seq<Piece> {
    line_of("this(scope, id, props"@ + repeat_text(", null"@, props.len()) + ");"@) + seq![
        Piece::Close,
        Piece::Text(nl()),
        Piece::Open(ctor_layout(full_ctor(stack))),
    ] + param_lines(props, props.len()) + line_of("super(scope, id, props);"@) + seq![Piece::Text(nl())]
}

#[verifier::spinoff_prover]
proof fn lemma_run_ctor_head(cur: Cursor, stack: Seq<char>)
    requires
        cur.at_line_start,
    ensures
        run(cur, ctor_head(stack)) == (Cursor {
            out: cur.out + (laid_line(indent_prefix(cur.frames), short_ctor(stack)) + laid_line(
                indent_prefix(cur.frames) + ind1(),
                "super(scope, id, null);"@,
            ) + laid_line(indent_prefix(cur.frames), "}"@) + nl() + laid_line(
                indent_prefix(cur.frames),
                props_ctor(stack),
            )),
            frames: cur.frames.push(ctor_layout(props_ctor(stack))),
            at_line_start: true,
        }),
{
    let p = indent_prefix(cur.frames);
    let b = p + ind1();
    let l1 = ctor_layout(short_ctor(stack));
    let l2 = ctor_layout(props_ctor(stack));
    let o1 = seq![Piece::Open(l1)];
    let s1 = line_of("super(scope, id, null);"@);
    let k = seq![Piece::Close];
    let n = seq![Piece::Text(nl())];
    let o2 = seq![Piece::Open(l2)];
    lemma_run_open_leading(cur, l1);
    let c1 = run(cur, o1);
    lemma_indent_push(cur.frames, l1);
    lemma_run_line(c1, "super(scope, id, null);"@);
    let c2 = run(c1, s1);
    lemma_run_concat(cur, o1, s1);
    assert(c2.frames.drop_last() =~= cur.frames);
    lemma_run_close_trailing(c2);
    let c3 = run(c2, k);
    lemma_run_concat(cur, o1 + s1, k);
    lemma_run_break(c3);
    let c4 = run(c3, n);
    lemma_run_concat(cur, o1 + s1 + k, n);
    lemma_run_open_leading(c4, l2);
    let c5 = run(c4, o2);
    lemma_run_concat(cur, o1 + s1 + k + n, o2);
    assert(ctor_head(stack) =~= o1 + s1 + k + n + o2);
    assert(c5.out =~= cur.out + (laid_line(p, short_ctor(stack)) + laid_line(b, "super(scope, id, null);"@)
        + laid_line(p, "}"@) + nl() + laid_line(p, props_ctor(stack))));
}

#[verifier::spinoff_prover]
proof fn lemma_run_ctor_tail(cur: Cursor, props: Seq<ParamModel>, stack: Seq<char>)
    requires
        cur.at_line_start,
        cur.frames.len() > 0,
        cur.frames.last() == ctor_layout(props_ctor(stack)),
    ensures
        run(cur, ctor_tail(props, stack)) == (Cursor {
            out: cur.out + (laid_line(
                indent_prefix(cur.frames),
                "this(scope, id, props"@ + repeat_text(", null"@, props.len()) + ");"@,
            ) + laid_line(indent_prefix(cur.frames.drop_last()), "}"@) + nl() + laid_line(
                indent_prefix(cur.frames.drop_last()),
                full_ctor(stack),
            ) + params_text(indent_prefix(cur.frames), props, props.len()) + laid_line(
                indent_prefix(cur.frames),
                "super(scope, id, props);"@,
            ) + nl()),
            frames: cur.frames.drop_last().push(ctor_layout(full_ctor(stack))),
            at_line_start: true,
        }),
{
    let f0 = cur.frames.drop_last();
    let p = indent_prefix(f0);
    let b = indent_prefix(cur.frames);
    let this_line = "this(scope, id, props"@ + repeat_text(", null"@, props.len()) + ");"@;
    let l3 = ctor_layout(full_ctor(stack));
    let s2 = line_of(this_line);
    let k = seq![Piece::Close];
    let n = seq![Piece::Text(nl())];
    let o3 = seq![Piece::Open(l3)];
    let pl = param_lines(props, props.len());
    let s3 = line_of("super(scope, id, props);"@);
    lemma_run_line(cur, this_line);
    let c6 = run(cur, s2);
    lemma_run_close_trailing(c6);
    let c7 = run(c6, k);
    lemma_run_concat(cur, s2, k);
    lemma_run_break(c7);
    let c8 = run(c7, n);
    lemma_run_concat(cur, s2 + k, n);
    lemma_run_open_leading(c8, l3);
    let c9 = run(c8, o3);
    lemma_run_concat(cur, s2 + k + n, o3);
    lemma_indent_push(f0, l3);
    lemma_indent_push(f0, cur.frames.last());
    assert(f0.push(cur.frames.last()) =~= cur.frames);
    lemma_run_param_lines(c9, props, props.len());
    let c10 = run(c9, pl);
    lemma_run_concat(cur, s2 + k + n + o3, pl);
    lemma_run_line(c10, "super(scope, id, props);"@);
    let c11 = run(c10, s3);
    lemma_run_concat(cur, s2 + k + n + o3 + pl, s3);
    lemma_run_break(c11);
    let c12 = run(c11, n);
    lemma_run_concat(cur, s2 + k + n + o3 + pl + s3, n);
    assert(ctor_tail(props, stack) =~= s2 + k + n + o3 + pl + s3 + n);
    assert(c12.out =~= cur.out + (laid_line(b, this_line) + laid_line(p, "}"@) + nl() + laid_line(p, full_ctor(stack))
        + params_text(b, props, props.len()) + laid_line(b, "super(scope, id, props);"@) + nl()));
}

/// Writing the constructors where a line begins.
proof fn lemma_run_stack_definitions(cur: Cursor, props: Seq<ParamModel>, stack: Seq<char>)
    requires
        cur.at_line_start,
    ensures
        run(cur, stack_definition_pieces(props, stack)) == (Cursor {
            out: cur.out + ctors_text(indent_prefix(cur.frames), props, stack),
            frames: cur.frames.push(last_ctor(props, stack)),
            at_line_start: true,
        }),
{
    let p = indent_prefix(cur.frames);
    let head = ctor_head(stack);
    lemma_run_ctor_head(cur, stack);
    let c5 = run(cur, head);
    let l2 = ctor_layout(props_ctor(stack));
    lemma_indent_push(cur.frames, l2);
    assert(cur.frames.push(l2).drop_last() =~= cur.frames);
    if props.len() == 0 {
        let s2 = line_of("super(scope, id, props);"@);
        lemma_run_line(c5, "super(scope, id, props);"@);
        lemma_run_concat(cur, head, s2);
        assert(stack_definition_pieces(props, stack) =~= head + s2);
        assert(run(c5, s2).out =~= cur.out + ctors_text(p, props, stack));
    } else {
        let tail = ctor_tail(props, stack);
        lemma_run_ctor_tail(c5, props, stack);
        lemma_run_concat(cur, head, tail);
        assert(stack_definition_pieces(props, stack) =~= head + tail);
        assert(run(c5, tail).out =~= cur.out + ctors_text(p, props, stack));
    }
}

/// The constructors of a stack class render as `ctors_text` gives them,
/// and whatever is written after them, closing every block it opens,
/// lands in the body of the last constructor, before its closing brace.
proof fn lemma_constructors_section(props: Seq<ParamModel>, stack: Seq<char>, body: Seq<Piece>)
    requires
        balanced(body),
    ensures
        rendered(stack_definition_pieces(props, stack) + body) == ctors_text(Seq::empty(), props, stack)
            + section(seq![last_ctor(props, stack)], true, body) + "}"@ + nl(),
{
    let defs = stack_definition_pieces(props, stack);
    let lc = last_ctor(props, stack);
    lemma_run_stack_definitions(start(), props, stack);
    assert(indent_prefix(start().frames) =~= Seq::<char>::empty());
    assert(start().frames.push(lc) =~= seq![lc]);
    assert(Seq::<char>::empty() + ctors_text(Seq::empty(), props, stack) =~= ctors_text(Seq::empty(), props, stack));
    let c = run(start(), defs);
    lemma_run_concat(start(), defs, body);
    lemma_run_section(c, body);
    lemma_run_balanced(c, body);
    let d = run(c, body);
    assert(d.frames == seq![lc]);
    let e = Cursor { out: d.out, frames: d.frames.drop_last(), at_line_start: d.at_line_start };
    assert(e.frames =~= Seq::<Layout>::empty());
    lemma_put_text(e, "}"@);
    assert(indent_prefix(e.frames) =~= Seq::<char>::empty());
    lemma_lay_no_indent("}"@, d.at_line_start);
    let f = close_block(d);
    assert(f == put_char(put_text(e, "}"@), '\n'));
    assert(f.frames.len() == 0);
    assert(close_all(f) == f);
    assert(close_all(d) == close_all(f));
    reveal_strlit("\n");
    assert(nl() =~= seq!['\n']);
    assert(f.out =~= ctors_text(Seq::empty(), props, stack) + section(seq![lc], true, body) + "}"@ + nl());
}

// ---------------------------------------------------------------------------
// Output fields and getters
// ---------------------------------------------------------------------------

/// The private fields of the outputs, under the indentation `b`, one per
/// output in order, each followed by a blank line.
pub open spec fn fields_text(b: Seq<char>, s: Seq<OutputInstruction>) -> Seq<char>
    decreases s.len(),
{
    if s.len() == 0 {
        Seq::empty()
    } else {
        let o = s.last();
        fields_text(b, s.drop_last()) + laid_line(
            b,
            "private "@ + field_type_text(o.condition is Some) + " "@ + spec_camel_case(o.name@) + ";\n"@,
        )
    }
}

/// The getters of the outputs, under the indentation `b`, one per output
/// in order: its signature, the line returning the field (of the same
/// type), and the closing brace followed by a blank line.
pub open spec fn getters_text(b: Seq<char>, s: Seq<OutputInstruction>) -> Seq<char>
    decreases s.len(),
{
    if s.len() == 0 {
        Seq::empty()
    } else {
        let o = s.last();
        getters_text(b, s.drop_last()) + laid_line(
            b,
            "public "@ + field_type_text(o.condition is Some) + " get"@ + spec_pascal_case(o.name@) + "() {"@,
        ) + laid_line(b + ind1(), "return this."@ + spec_camel_case(o.name@) + ";"@) + laid_line(b, "}\n"@)
    }
}

proof fn lemma_run_field_lines(cur: Cursor, s: Seq<OutputInstruction>)
    requires
        cur.at_line_start,
    ensures
        run(cur, output_field_lines(s)) == moved(cur, fields_text(indent_prefix(cur.frames), s)),
    decreases s.len(),
{
    if s.len() == 0 {
        assert(cur.out + Seq::<char>::empty() =~= cur.out);
    } else {
        let o = s.last();
        let line = "private "@ + field_type_text(o.condition is Some) + " "@ + spec_camel_case(o.name@) + ";\n"@;
        lemma_run_field_lines(cur, s.drop_last());
        let c1 = run(cur, output_field_lines(s.drop_last()));
        lemma_run_line(c1, line);
        lemma_run_concat(cur, output_field_lines(s.drop_last()), line_of(line));
        assert(run(c1, line_of(line)).out =~= cur.out + fields_text(indent_prefix(cur.frames), s));
    }
}

proof fn lemma_run_getters(cur: Cursor, s: Seq<OutputInstruction>)
    requires
        cur.at_line_start,
    ensures
        run(cur, output_getters(s)) == moved(cur, getters_text(indent_prefix(cur.frames), s)),
    decreases s.len(),
{
    let b = indent_prefix(cur.frames);
    if s.len() == 0 {
        assert(cur.out + Seq::<char>::empty() =~= cur.out);
    } else {
        let o = s.last();
        let l = Layout {
            indent: ind1(),
            leading: Some(
                "public "@ + field_type_text(o.condition is Some) + " get"@ + spec_pascal_case(o.name@) + "() {"@,
            ),
            trailing: Some("}\n"@),
            trailing_newline: true,
        };
        let a = output_getters(s.drop_last());
        let ret = "return this."@ + spec_camel_case(o.name@) + ";"@;
        lemma_run_getters(cur, s.drop_last());
        let c1 = run(cur, a);
        lemma_run_open_leading(c1, l);
        let c2 = run(c1, seq![Piece::Open(l)]);
        lemma_run_concat(cur, a, seq![Piece::Open(l)]);
        lemma_indent_push(cur.frames, l);
        lemma_run_line(c2, ret);
        let c3 = run(c2, line_of(ret));
        lemma_run_concat(cur, a + seq![Piece::Open(l)], line_of(ret));
        assert(c3.frames.drop_last() =~= cur.frames);
        lemma_run_close_trailing(c3);
        lemma_run_concat(cur, a + seq![Piece::Open(l)] + line_of(ret), seq![Piece::Close]);
        assert(output_getters(s) =~= a + seq![Piece::Open(l)] + line_of(ret) + seq![Piece::Close]);
        assert(run(c3, seq![Piece::Close]).out =~= cur.out + getters_text(b, s));
    }
}

/// The fields of the outputs come first, one per output in order, then
/// their getters, one per output in order; a field and its getter have the
/// same type.
proof fn lemma_output_fields_section(frames: Seq<Layout>, s: Seq<OutputInstruction>)
    ensures
        section(frames, true, output_field_pieces(s)) == fields_text(indent_prefix(frames), s) + getters_text(
            indent_prefix(frames),
            s,
        ),
        section_ends_line(frames, true, output_field_pieces(s)),
{
    let cur = Cursor { out: Seq::empty(), frames, at_line_start: true };
    lemma_run_field_lines(cur, s);
    let c1 = run(cur, output_field_lines(s));
    lemma_run_getters(c1, s);
    lemma_run_concat(cur, output_field_lines(s), output_getters(s));
    assert(Seq::<char>::empty() + fields_text(indent_prefix(frames), s) + getters_text(indent_prefix(frames), s)
        =~= fields_text(indent_prefix(frames), s) + getters_text(indent_prefix(frames), s));
}

// ---------------------------------------------------------------------------
// Parameter defaults
// ---------------------------------------------------------------------------

/// The default-setting text of a constructor parameter under the
/// indentation `b`: a blank line when it has no default; for a template
/// parameter of an AWS type, a `CfnParameter` built when the argument is
/// null, read as a list when its type is a list type and as a string
/// otherwise; for any other parameter, one assignment of the default
/// string when the argument is null.
pub open spec fn prop_text(b: Seq<char>, p: ParamModel) -> Seq<char> {
    match p.default_value {
        None => nl(),
        Some(v) => if seq_contains(p.constructor_type, "AWS::"@) {
            let value_as = if seq_contains(p.constructor_type, "List"@) {
                "getValueAsList"@
            } else {
                "getValueAsString"@
            };
            let b2 = b + ind2();
            let b4 = b2 + ind2();
            laid_line(b, p.name + " = Optional.ofNullable("@ + p.name + ").isPresent()"@) + laid_line(
                b2,
                "? "@ + p.name,
            ) + laid_line(b2, ": CfnParameter.Builder.create(this, \""@ + spec_pascal_case(p.name) + "\")"@)
                + laid_line(b4, ".type(\""@ + p.constructor_type + "\")"@) + laid_line(
                b4,
                ".defaultValue(\""@ + v + "\")"@,
            ) + laid_line(b4, ".build()"@) + laid_line(b4, "."@ + value_as + "();"@)
        } else {
            laid_line(
                b,
                p.name + " = Optional.ofNullable("@ + p.name + ").isPresent() ? "@ + p.name + "\n"@ + ind2()
                    + ": \""@ + v + "\";"@,
            )
        },
    }
}

/// The default-setting text of every parameter, in order.
pub open spec fn props_text(b: Seq<char>, s: Seq<ParamModel>) -> Seq<char>
    decreases s.len(),
{
    if s.len() == 0 {
        Seq::empty()
    } else {
        props_text(b, s.drop_last()) + prop_text(b, s.last())
    }
}

#[verifier::spinoff_prover]
proof fn lemma_run_aws_prop(cur: Cursor, p: ParamModel, v: Seq<char>)
    requires
        cur.at_line_start,
        p.default_value == Some(v),
        seq_contains(p.constructor_type, "AWS::"@),
    ensures
        run(cur, prop_pieces(p)) == moved(cur, prop_text(indent_prefix(cur.frames), p)),
{
    let b = indent_prefix(cur.frames);
    let value_as = if seq_contains(p.constructor_type, "List"@) {
        "getValueAsList"@
    } else {
        "getValueAsString"@
    };
    let l1 = Layout {
        indent: ind2(),
        leading: Some(p.name + " = Optional.ofNullable("@ + p.name + ").isPresent()"@),
        trailing: None,
        trailing_newline: true,
    };
    let l2 = Layout {
        indent: ind2(),
        leading: Some(": CfnParameter.Builder.create(this, \""@ + spec_pascal_case(p.name) + "\")"@),
        trailing: None,
        trailing_newline: false,
    };
    let o1 = seq![Piece::Open(l1)];
    let a = line_of("? "@ + p.name);
    let o2 = seq![Piece::Open(l2)];
    let t1 = line_of(".type(\""@ + p.constructor_type + "\")"@);
    let t2 = line_of(".defaultValue(\""@ + v + "\")"@);
    let t3 = line_of(".build()"@);
    let t4 = line_of("."@ + value_as + "();"@);
    let k = seq![Piece::Close];
    assert(prop_pieces(p) =~= o1 + a + o2 + t1 + t2 + t3 + t4 + k + k);
    lemma_run_open_leading(cur, l1);
    let c1 = run(cur, o1);
    lemma_indent_push(cur.frames, l1);
    lemma_run_line(c1, "? "@ + p.name);
    let c2 = run(c1, a);
    lemma_run_concat(cur, o1, a);
    lemma_run_open_leading(c2, l2);
    let c3 = run(c2, o2);
    lemma_run_concat(cur, o1 + a, o2);
    lemma_indent_push(cur.frames.push(l1), l2);
    lemma_run_line(c3, ".type(\""@ + p.constructor_type + "\")"@);
    let c4 = run(c3, t1);
    lemma_run_concat(cur, o1 + a + o2, t1);
    lemma_run_line(c4, ".defaultValue(\""@ + v + "\")"@);
    let c5 = run(c4, t2);
    lemma_run_concat(cur, o1 + a + o2 + t1, t2);
    lemma_run_line(c5, ".build()"@);
    let c6 = run(c5, t3);
    lemma_run_concat(cur, o1 + a + o2 + t1 + t2, t3);
    lemma_run_line(c6, "."@ + value_as + "();"@);
    let c7 = run(c6, t4);
    lemma_run_concat(cur, o1 + a + o2 + t1 + t2 + t3, t4);
    assert(c7.frames == cur.frames.push(l1).push(l2));
    lemma_run_close_plain(c7);
    let c8 = run(c7, k);
    lemma_run_concat(cur, o1 + a + o2 + t1 + t2 + t3 + t4, k);
    assert(c8.frames =~= cur.frames.push(l1));
    lemma_run_close_plain(c8);
    let c9 = run(c8, k);
    lemma_run_concat(cur, o1 + a + o2 + t1 + t2 + t3 + t4 + k, k);
    assert(c9.frames =~= cur.frames);
    assert(c9.out =~= cur.out + prop_text(b, p));
}

proof fn lemma_run_prop(cur: Cursor, p: ParamModel)
    requires
        cur.at_line_start,
    ensures
        run(cur, prop_pieces(p)) == moved(cur, prop_text(indent_prefix(cur.frames), p)),
{
    match p.default_value {
        None => lemma_run_break(cur),
        Some(v) => {
            if seq_contains(p.constructor_type, "AWS::"@) {
                lemma_run_aws_prop(cur, p, v);
            } else {
                lemma_run_line(
                    cur,
                    p.name + " = Optional.ofNullable("@ + p.name + ").isPresent() ? "@ + p.name + "\n"@ + ind2()
                        + ": \""@ + v + "\";"@,
                );
            }
        },
    }
}

proof fn lemma_run_props(cur: Cursor, s: Seq<ParamModel>)
    requires
        cur.at_line_start,
    ensures
        run(cur, props_pieces(s)) == moved(cur, props_text(indent_prefix(cur.frames), s)),
    decreases s.len(),
{
    if s.len() == 0 {
        assert(cur.out + Seq::<char>::empty() =~= cur.out);
    } else {
        lemma_run_props(cur, s.drop_last());
        let c1 = run(cur, props_pieces(s.drop_last()));
        lemma_run_prop(c1, s.last());
        lemma_run_concat(cur, props_pieces(s.drop_last()), prop_pieces(s.last()));
        assert(run(c1, prop_pieces(s.last())).out =~= cur.out + props_text(indent_prefix(cur.frames), s));
    }
}

/// The parameters' defaults are written in the parameters' order, each as
/// `prop_text` gives it.
proof fn lemma_props_section(frames: Seq<Layout>, s: Seq<ParamModel>)
    ensures
        section(frames, true, props_pieces(s)) == props_text(indent_prefix(frames), s),
        section_ends_line(frames, true, props_pieces(s)),
{
    let cur = Cursor { out: Seq::empty(), frames, at_line_start: true };
    lemma_run_props(cur, s);
    assert(Seq::<char>::empty() + props_text(indent_prefix(frames), s) =~= props_text(indent_prefix(frames), s));
}

// ---------------------------------------------------------------------------
// The whole file
// ---------------------------------------------------------------------------

/// The package declaration and the imports every stack needs.
pub open spec fn header_text(package: Seq<char>) -> Seq<char> {
    "package "@ + package + ";"@ + nl() + nl() + "import software.constructs.Construct;"@ + nl() + nl()
        + "import java.util.*;"@ + nl() + "import software.amazon.awscdk.*;"@ + nl()
        + "import software.amazon.awscdk.CfnMapping;"@ + nl() + "import software.amazon.awscdk.CfnTag;"@ + nl()
        + "import software.amazon.awscdk.Stack;"@ + nl() + "import software.amazon.awscdk.StackProps;"@ + nl()
}

/// The import statement of each import, in order, each on a line of its
/// own.
pub open spec fn imports_text(s: Seq<ImportInstruction>) -> Seq<char>
    decreases s.len(),
{
    if s.len() == 0 {
        Seq::empty()
    } else {
        imports_text(s.drop_last()) + import_text(s.last()) + nl()
    }
}

/// A `Boolean` variable per condition, in order, under the indentation
/// `b`.
pub open spec fn conditions_text(b: Seq<char>, s: Seq<ConditionInstruction>) -> Seq<char>
    decreases s.len(),
{
    if s.len() == 0 {
        Seq::empty()
    } else {
        conditions_text(b, s.drop_last()) + laid_line(
            b,
            "Boolean "@ + spec_camel_case(s.last().name@) + " = "@ + condition_text(s.last().value) + ";"@,
        )
    }
}

/// The blocks open in the body of the last constructor: the class and the
/// constructor.
pub open spec fn body_frames(ir: CloudformationProgramIr, stack: Seq<char>) -> Seq<Layout> {
    seq![class_layout(stack), last_ctor(params_of(ir), stack)]
}

/// Pieces that are empty or end with a text that ends a line.
pub open spec fn ends_with_break(ps: Seq<Piece>) -> bool {
    ps.len() == 0 || (ps.last() matches Piece::Text(t) && t.len() > 0 && t.last() == '\n')
}

proof fn lemma_nl_breaks()
    ensures
        nl().len() == 1,
        nl().last() == '\n',
        ends_with_break(seq![Piece::Text(nl())]),
{
    reveal_strlit("\n");
    assert(seq![Piece::Text(nl())].last() == Piece::Text(nl()));
}

proof fn lemma_ends_with_break_concat(a: Seq<Piece>, b: Seq<Piece>)
    requires
        b.len() > 0,
        ends_with_break(b),
    ensures
        ends_with_break(a + b),
{
    assert((a + b).last() == b.last());
}

/// Balanced pieces that end a line, written where a line begins.
proof fn lemma_run_closed_section(cur: Cursor, ps: Seq<Piece>)
    requires
        cur.at_line_start,
        balanced(ps),
        ends_with_break(ps),
    ensures
        run(cur, ps) == moved(cur, section(cur.frames, true, ps)),
{
    lemma_run_section(cur, ps);
    lemma_run_balanced(cur, ps);
    if ps.len() > 0 {
        lemma_run_ends_line(cur, ps);
    } else {
        assert(run(cur, ps) == cur);
    }
}

proof fn lemma_run_top_line(cur: Cursor, s: Seq<char>)
    requires
        cur.at_line_start,
        cur.frames.len() == 0,
    ensures
        run(cur, line_of(s)) == moved(cur, s + nl()),
{
    lemma_run_line(cur, s);
    assert(indent_prefix(cur.frames) =~= Seq::<char>::empty());
    lemma_lay_no_indent(s + nl(), true);
}

#[verifier::spinoff_prover]
proof fn lemma_run_header(cur: Cursor, package: Seq<char>)
    requires
        cur.at_line_start,
        cur.frames.len() == 0,
    ensures
        run(cur, header_pieces(package)) == moved(cur, header_text(package)),
{
    let l1 = line_of("package "@ + package + ";"@);
    let n = seq![Piece::Text(nl())];
    let l2 = line_of("import software.constructs.Construct;"@);
    let l3 = line_of("import java.util.*;"@);
    let l4 = line_of("import software.amazon.awscdk.*;"@);
    let l5 = line_of("import software.amazon.awscdk.CfnMapping;"@);
    let l6 = line_of("import software.amazon.awscdk.CfnTag;"@);
    let l7 = line_of("import software.amazon.awscdk.Stack;"@);
    let l8 = line_of("import software.amazon.awscdk.StackProps;"@);
    assert(header_pieces(package) =~= l1 + n + l2 + n + l3 + l4 + l5 + l6 + l7 + l8);
    lemma_run_top_line(cur, "package "@ + package + ";"@);
    let c1 = run(cur, l1);
    lemma_run_break(c1);
    let c2 = run(c1, n);
    lemma_run_concat(cur, l1, n);
    lemma_run_top_line(c2, "import software.constructs.Construct;"@);
    let c3 = run(c2, l2);
    lemma_run_concat(cur, l1 + n, l2);
    lemma_run_break(c3);
    let c4 = run(c3, n);
    lemma_run_concat(cur, l1 + n + l2, n);
    lemma_run_top_line(c4, "import java.util.*;"@);
    let c5 = run(c4, l3);
    lemma_run_concat(cur, l1 + n + l2 + n, l3);
    lemma_run_top_line(c5, "import software.amazon.awscdk.*;"@);
    let c6 = run(c5, l4);
    lemma_run_concat(cur, l1 + n + l2 + n + l3, l4);
    lemma_run_top_line(c6, "import software.amazon.awscdk.CfnMapping;"@);
    let c7 = run(c6, l5);
    lemma_run_concat(cur, l1 + n + l2 + n + l3 + l4, l5);
    lemma_run_top_line(c7, "import software.amazon.awscdk.CfnTag;"@);
    let c8 = run(c7, l6);
    lemma_run_concat(cur, l1 + n + l2 + n + l3 + l4 + l5, l6);
    lemma_run_top_line(c8, "import software.amazon.awscdk.Stack;"@);
    let c9 = run(c8, l7);
    lemma_run_concat(cur, l1 + n + l2 + n + l3 + l4 + l5 + l6, l7);
    lemma_run_top_line(c9, "import software.amazon.awscdk.StackProps;"@);
    let c10 = run(c9, l8);
    lemma_run_concat(cur, l1 + n + l2 + n + l3 + l4 + l5 + l6 + l7, l8);
    assert(c10.out =~= cur.out + header_text(package));
}

proof fn lemma_run_imports(cur: Cursor, s: Seq<ImportInstruction>)
    requires
        cur.at_line_start,
        cur.frames.len() == 0,
    ensures
        run(cur, import_lines(s)) == moved(cur, imports_text(s)),
    decreases s.len(),
{
    if s.len() == 0 {
        assert(cur.out + Seq::<char>::empty() =~= cur.out);
    } else {
        lemma_run_imports(cur, s.drop_last());
        let c1 = run(cur, import_lines(s.drop_last()));
        lemma_run_top_line(c1, import_text(s.last()));
        lemma_run_concat(cur, import_lines(s.drop_last()), line_of(import_text(s.last())));
        assert(run(c1, line_of(import_text(s.last()))).out =~= cur.out + imports_text(s));
    }
}

proof fn lemma_run_conditions(cur: Cursor, s: Seq<ConditionInstruction>)
    requires
        cur.at_line_start,
    ensures
        run(cur, condition_lines(s)) == moved(cur, conditions_text(indent_prefix(cur.frames), s)),
    decreases s.len(),
{
    if s.len() == 0 {
        assert(cur.out + Seq::<char>::empty() =~= cur.out);
    } else {
        let line = "Boolean "@ + spec_camel_case(s.last().name@) + " = "@ + condition_text(s.last().value) + ";"@;
        lemma_run_conditions(cur, s.drop_last());
        let c1 = run(cur, condition_lines(s.drop_last()));
        lemma_run_line(c1, line);
        lemma_run_concat(cur, condition_lines(s.drop_last()), line_of(line));
        assert(run(c1, line_of(line)).out =~= cur.out + conditions_text(indent_prefix(cur.frames), s));
    }
}

proof fn lemma_mappings_end(ir: CloudformationProgramIr)
    ensures
        balanced(write_mappings_pieces(ir)),
        ends_with_break(write_mappings_pieces(ir)),
{
    lemma_nl_breaks();
    if ir.mappings@.len() > 0 {
        let s = ir.mappings@;
        lemma_mappings_texts(s);
        let h = line_of("// Mappings"@);
        assert(texts_only(h + mappings_pieces(s))) by {
            assert forall|i: int| 0 <= i < (h + mappings_pieces(s)).len() implies #[trigger] (h + mappings_pieces(
                s,
            ))[i] is Text by {
                if i >= h.len() {
                    assert((h + mappings_pieces(s))[i] == mappings_pieces(s)[i - h.len()]);
                }
            }
        }
        lemma_texts_balanced(h + mappings_pieces(s));
        let m = s.last();
        let mp = mapping_pieces(m);
        lemma_ends_with_break_concat(mp.subrange(0, mp.len() - 1), seq![Piece::Text(nl())]);
        assert(mp.last() == Piece::Text(nl()));
        lemma_ends_with_break_concat(h + mappings_pieces(s.drop_last()), mp);
        assert(h + mappings_pieces(s) =~= h + mappings_pieces(s.drop_last()) + mp);
    } else {
        assert(write_mappings_pieces(ir) =~= Seq::<Piece>::empty());
        lemma_balanced_text(nl());
        assert(balanced(Seq::<Piece>::empty()));
    }
}

proof fn lemma_resources_end(s: Seq<crate::ir::ResourceInstruction>)
    ensures
        ends_with_break(resources_pieces(s)),
{
    lemma_nl_breaks();
    if s.len() > 0 {
        let r = s.last();
        let a = attribute_pieces(r, r.condition is Some);
        let pre = resources_pieces(s.drop_last()) + resource_pieces(r) + seq![Piece::Text(nl())];
        if r.metadata is Some || r.dependencies@.len() > 0 || r.deletion_policy is Some || r.update_policy is Some {
            lemma_ends_with_break_concat(
                metadata_pieces(r.metadata, crate::java::attribute_target(r.name@, r.condition is Some), crate::java::attribute_trailer(r.condition is Some))
                    + dependency_pieces(r.dependencies@, crate::java::attribute_target(r.name@, r.condition is Some), crate::java::attribute_trailer(r.condition is Some))
                    + policy_pieces(r, crate::java::attribute_target(r.name@, r.condition is Some), crate::java::attribute_trailer(r.condition is Some)),
                seq![Piece::Text(nl())],
            );
            lemma_ends_with_break_concat(pre, a);
        } else {
            assert(r.dependencies@ =~= Seq::<String>::empty());
            assert(a =~= Seq::<Piece>::empty());
            lemma_ends_with_break_concat(resources_pieces(s.drop_last()) + resource_pieces(r), seq![Piece::Text(nl())]);
            assert(pre + a =~= pre);
        }
    }
}

proof fn lemma_outputs_end(s: Seq<OutputInstruction>)
    ensures
        ends_with_break(outputs_pieces(s)),
{
    lemma_nl_breaks();
    if s.len() > 0 {
        let op = output_pieces(s.last());
        assert(op.last() == Piece::Text(nl()));
        lemma_ends_with_break_concat(outputs_pieces(s.drop_last()), op);
    }
}

/// The file up to the body of the last constructor.
pub open spec fn front_pieces(package: Seq<char>, ir: CloudformationProgramIr, stack: Seq<char>) -> Seq<Piece> {
    header_pieces(package) + import_lines(ir.imports@) + seq![Piece::Text(nl()), Piece::Open(class_layout(stack))]
        + output_field_pieces(ir.outputs@) + stack_definition_pieces(params_of(ir), stack)
}

/// The text of the file up to the body of the last constructor.
pub open spec fn front_text(package: Seq<char>, ir: CloudformationProgramIr, stack: Seq<char>) -> Seq<char> {
    header_text(package) + imports_text(ir.imports@) + nl() + "class "@ + stack + " extends Stack {"@ + nl()
        + fields_text(ind1(), ir.outputs@) + getters_text(ind1(), ir.outputs@) + ctors_text(
        ind1(),
        params_of(ir),
        stack,
    )
}

/// The pieces of the file up to the opening of the class.
pub open spec fn opening_pieces(package: Seq<char>, ir: CloudformationProgramIr, stack: Seq<char>) -> Seq<Piece> {
    header_pieces(package) + import_lines(ir.imports@) + seq![Piece::Text(nl())] + seq![
        Piece::Open(class_layout(stack)),
    ]
}

#[verifier::spinoff_prover]
proof fn lemma_run_opening(package: Seq<char>, ir: CloudformationProgramIr, stack: Seq<char>)
    ensures
        run(start(), opening_pieces(package, ir, stack)) == (Cursor {
            out: header_text(package) + imports_text(ir.imports@) + nl() + "class "@ + stack + " extends Stack {"@
                + nl(),
            frames: seq![class_layout(stack)],
            at_line_start: true,
        }),
{
    let c0 = start();
    let h = header_pieces(package);
    let im = import_lines(ir.imports@);
    let n = seq![Piece::Text(nl())];
    let cl = class_layout(stack);
    let o = seq![Piece::Open(cl)];
    lemma_run_header(c0, package);
    let c1 = run(c0, h);
    lemma_run_imports(c1, ir.imports@);
    let c2 = run(c1, im);
    lemma_run_concat(c0, h, im);
    lemma_run_break(c2);
    let c3 = run(c2, n);
    lemma_run_concat(c0, h + im, n);
    lemma_run_open_leading(c3, cl);
    let c4 = run(c3, o);
    lemma_run_concat(c0, h + im + n, o);
    assert(indent_prefix(c3.frames) =~= Seq::<char>::empty());
    lemma_lay_no_indent("class "@ + stack + " extends Stack {"@ + nl(), true);
    assert(c3.frames.push(cl) =~= seq![cl]);
    assert(c4.out =~= header_text(package) + imports_text(ir.imports@) + nl() + "class "@ + stack
        + " extends Stack {"@ + nl());
}

#[verifier::spinoff_prover]
proof fn lemma_run_front(package: Seq<char>, ir: CloudformationProgramIr, stack: Seq<char>)
    ensures
        run(start(), front_pieces(package, ir, stack)) == (Cursor {
            out: front_text(package, ir, stack),
            frames: body_frames(ir, stack),
            at_line_start: true,
        }),
{
    let c0 = start();
    let op = opening_pieces(package, ir, stack);
    let cl = class_layout(stack);
    let fl = output_field_lines(ir.outputs@);
    let g = output_getters(ir.outputs@);
    let sd = stack_definition_pieces(params_of(ir), stack);
    assert(front_pieces(package, ir, stack) =~= op + fl + g + sd);
    lemma_run_opening(package, ir, stack);
    let c4 = run(c0, op);
    lemma_indent_push(Seq::<Layout>::empty(), cl);
    assert(seq![cl] =~= Seq::<Layout>::empty().push(cl));
    assert(indent_prefix(Seq::<Layout>::empty()) =~= Seq::<char>::empty());
    assert(indent_prefix(c4.frames) =~= ind1());
    lemma_run_field_lines(c4, ir.outputs@);
    let c5 = run(c4, fl);
    lemma_run_concat(c0, op, fl);
    lemma_run_getters(c5, ir.outputs@);
    let c6 = run(c5, g);
    lemma_run_concat(c0, op + fl, g);
    lemma_run_stack_definitions(c6, params_of(ir), stack);
    let c7 = run(c6, sd);
    lemma_run_concat(c0, op + fl + g, sd);
    assert(c7.frames =~= body_frames(ir, stack));
    assert(c7.out =~= front_text(package, ir, stack));
}

/// The pieces of the last constructor's body.
pub open spec fn body_pieces(ir: CloudformationProgramIr) -> Seq<Piece> {
    props_pieces(params_of(ir)) + write_mappings_pieces(ir) + condition_lines(ir.conditions@) + seq![
        Piece::Text(nl()),
    ] + resources_pieces(ir.resources@) + outputs_pieces(ir.outputs@)
}

/// The text of the last constructor's body, whose blocks are `frames`.
pub open spec fn body_text(frames: Seq<Layout>, ir: CloudformationProgramIr) -> Seq<char> {
    props_text(indent_prefix(frames), params_of(ir)) + section(frames, true, write_mappings_pieces(ir))
        + conditions_text(indent_prefix(frames), ir.conditions@) + nl() + section(
        frames,
        true,
        resources_pieces(ir.resources@),
    ) + section(frames, true, outputs_pieces(ir.outputs@))
}

#[verifier::spinoff_prover]
proof fn lemma_run_body(cur: Cursor, ir: CloudformationProgramIr)
    requires
        cur.at_line_start,
    ensures
        run(cur, body_pieces(ir)) == moved(cur, body_text(cur.frames, ir)),
{
    let pr = props_pieces(params_of(ir));
    let mp = write_mappings_pieces(ir);
    let cd = condition_lines(ir.conditions@);
    let n = seq![Piece::Text(nl())];
    let rs = resources_pieces(ir.resources@);
    let os = outputs_pieces(ir.outputs@);
    assert(body_pieces(ir) =~= pr + mp + cd + n + rs + os);
    lemma_run_props(cur, params_of(ir));
    let c2 = run(cur, pr);
    lemma_mappings_end(ir);
    lemma_run_closed_section(c2, mp);
    let c3 = run(c2, mp);
    lemma_run_concat(cur, pr, mp);
    lemma_run_conditions(c3, ir.conditions@);
    let c4 = run(c3, cd);
    lemma_run_concat(cur, pr + mp, cd);
    lemma_run_break(c4);
    let c5 = run(c4, n);
    lemma_run_concat(cur, pr + mp + cd, n);
    lemma_resources_balanced(ir.resources@);
    lemma_resources_end(ir.resources@);
    lemma_run_closed_section(c5, rs);
    let c6 = run(c5, rs);
    lemma_run_concat(cur, pr + mp + cd + n, rs);
    lemma_outputs_balanced(ir.outputs@);
    lemma_outputs_end(ir.outputs@);
    lemma_run_closed_section(c6, os);
    let c7 = run(c6, os);
    lemma_run_concat(cur, pr + mp + cd + n + rs, os);
    assert(c7.out =~= cur.out + body_text(cur.frames, ir));
}

/// Closing the constructor and the class at the end of the file.
#[verifier::spinoff_prover]
proof fn lemma_close_file(cur: Cursor, ir: CloudformationProgramIr, stack: Seq<char>)
    requires
        cur.at_line_start,
        cur.frames == body_frames(ir, stack),
    ensures
        close_all(cur).out == cur.out + ind1() + "}"@ + nl() + "}"@ + nl(),
{
    let cl = class_layout(stack);
    let F = cur.frames;
    assert(F.drop_last() =~= seq![cl]);
    lemma_indent_push(Seq::<Layout>::empty(), cl);
    assert(seq![cl] =~= Seq::<Layout>::empty().push(cl));
    assert(indent_prefix(Seq::<Layout>::empty()) =~= Seq::<char>::empty());
    assert(indent_prefix(seq![cl]) =~= ind1());
    lemma_run_one(cur, Piece::Close);
    lemma_run_close_trailing(cur);
    let c8 = close_block(cur);
    assert(seq![cl].drop_last() =~= Seq::<Layout>::empty());
    lemma_run_one(c8, Piece::Close);
    lemma_run_close_trailing(c8);
    let c9 = close_block(c8);
    assert(c9.frames.len() == 0);
    assert(close_all(c9) == c9);
    assert(close_all(c8) == close_all(c9));
    assert(close_all(cur) == close_all(c8));
    reveal_strlit("}");
    lemma_laid_line_plain(ind1(), "}"@);
    lemma_laid_line_plain(Seq::empty(), "}"@);
    assert(Seq::<char>::empty() + "}"@ =~= "}"@);
    assert(c9.out =~= cur.out + ind1() + "}"@ + nl() + "}"@ + nl());
}

/// A synthesized file, as rendered: the package declaration and imports,
/// one import statement per import of the template in order, the class
/// line, the output fields and getters, the constructors, and in the body
/// of the last constructor (`body_text`) the parameters' defaults, the
/// mappings, the conditions, the resources and the outputs, in that order;
/// then the closing braces of the constructor and the class.
#[verifier::spinoff_prover]
proof fn lemma_file_text(package: Seq<char>, ir: CloudformationProgramIr, stack: Seq<char>)
    ensures
        rendered(synthesis_pieces(package, ir, stack)) == front_text(package, ir, stack) + body_text(
            body_frames(ir, stack),
            ir,
        ) + ind1() + "}"@ + nl() + "}"@ + nl(),
        indent_prefix(body_frames(ir, stack)) == ind1() + ind1(),
{
    let f = front_pieces(package, ir, stack);
    let F = body_frames(ir, stack);
    let b = body_pieces(ir);
    assert(synthesis_pieces(package, ir, stack) =~= f + b);
    lemma_run_front(package, ir, stack);
    let c1 = run(start(), f);
    let cl = class_layout(stack);
    lemma_indent_push(Seq::<Layout>::empty(), cl);
    assert(seq![cl] =~= Seq::<Layout>::empty().push(cl));
    assert(F =~= seq![cl].push(last_ctor(params_of(ir), stack)));
    lemma_indent_push(seq![cl], last_ctor(params_of(ir), stack));
    assert(indent_prefix(Seq::<Layout>::empty()) =~= Seq::<char>::empty());
    assert(indent_prefix(seq![cl]) =~= ind1());
    lemma_run_body(c1, ir);
    let c2 = run(c1, b);
    lemma_run_concat(start(), f, b);
    lemma_close_file(c2, ir, stack);
}

// ---------------------------------------------------------------------------
// Outputs
// ---------------------------------------------------------------------------

/// A value written after the text `lead`, where a line begins, under the
/// blocks `frames`, and followed by the text `end`.
pub open spec fn value_text(frames: Seq<Layout>, lead: Seq<char>, v: ResourceIr, end: Seq<char>) -> Seq<char> {
    let p = indent_prefix(frames);
    let a = ends_line(lead, true);
    lay(p, lead, true) + section(frames, a, java_pieces(v, None)) + lay(
        p,
        end,
        section_ends_line(frames, a, java_pieces(v, None)),
    )
}

/// The block of an output's `CfnOutput` builder: inside `ifPresent` for an
/// output under a condition.
pub open spec fn builder_layout(o: OutputInstruction) -> Layout {
    let var = spec_camel_case(o.name@);
    match o.condition {
        None => Layout {
            indent: ind2(),
            leading: Some("CfnOutput.Builder.create(this, \""@ + o.name@ + "\")"@),
            trailing: Some(ind2() + ".build();"@),
            trailing_newline: true,
        },
        Some(_) => Layout {
            indent: ind2(),
            leading: Some(
                "this."@ + var + ".ifPresent(_"@ + var + " -> CfnOutput.Builder.create(this, \""@ + o.name@ + "\")"@,
            ),
            trailing: Some(ind2() + ".build());"@),
            trailing_newline: true,
        },
    }
}

/// The assignment of an output's field and the opening of its builder
/// with the value, under the blocks `frames`.
pub open spec fn output_head_text(frames: Seq<Layout>, o: OutputInstruction) -> Seq<char> {
    let p = indent_prefix(frames);
    let var = spec_camel_case(o.name@);
    match o.condition {
        None => value_text(frames, "this."@ + var + " = "@, o.value, ";\n"@) + laid_line(
            p,
            builder_layout(o).leading->0,
        ) + laid_line(p + ind2(), ".value(this."@ + var + ".toString())"@),
        Some(c) => value_text(
            frames,
            "this."@ + var + " = "@ + spec_camel_case(c@) + " ? "@,
            o.value,
            " : Optional.empty();\n"@,
        ) + laid_line(p, builder_layout(o).leading->0) + laid_line(p + ind2(), ".value(_"@ + var + ".toString())"@),
    }
}

/// The description line of an output's builder, indented by `b`, when it
/// has a description.
pub open spec fn description_text(b: Seq<char>, o: OutputInstruction) -> Seq<char> {
    match o.description {
        Some(d) => laid_line(b, ".description(\""@ + d@ + "\")"@),
        None => Seq::empty(),
    }
}

/// The export name of an output's builder, whose blocks are `frames`, when
/// it has one.
pub open spec fn export_text(frames: Seq<Layout>, o: OutputInstruction) -> Seq<char> {
    match o.export {
        Some(e) => value_text(frames, ".exportName("@, e, ")\n"@),
        None => Seq::empty(),
    }
}

/// The statements of an output under the blocks `frames`: the assignment
/// of its field, then its one `CfnOutput` builder with its value, a
/// description line when it has a description, an export name when it has
/// one, and the builder's closing line, then a blank line.
pub open spec fn output_text(frames: Seq<Layout>, o: OutputInstruction) -> Seq<char> {
    let p = indent_prefix(frames);
    output_head_text(frames, o) + description_text(p + ind2(), o) + export_text(frames.push(builder_layout(o)), o)
        + laid_line(p, builder_layout(o).trailing->0) + nl()
}

/// The description piece of an output's builder.
pub open spec fn description_pieces(o: OutputInstruction) -> Seq<Piece> {
    match o.description {
        Some(d) => line_of(".description(\""@ + d@ + "\")"@),
        None => Seq::empty(),
    }
}

/// The export-name pieces of an output's builder.
pub open spec fn export_pieces(o: OutputInstruction) -> Seq<Piece> {
    match o.export {
        Some(e) => seq![Piece::Text(".exportName("@)] + java_pieces(e, None) + seq![Piece::Text(")\n"@)],
        None => Seq::empty(),
    }
}

/// The statements of every output, in order.
pub open spec fn outputs_text(frames: Seq<Layout>, s: Seq<OutputInstruction>) -> Seq<char>
    decreases s.len(),
{
    if s.len() == 0 {
        Seq::empty()
    } else {
        outputs_text(frames, s.drop_last()) + output_text(frames, s.last())
    }
}

proof fn lemma_run_value(cur: Cursor, lead: Seq<char>, v: ResourceIr, end: Seq<char>)
    requires
        cur.at_line_start,
        end.len() > 0,
        end.last() == '\n',
    ensures
        run(cur, seq![Piece::Text(lead)] + java_pieces(v, None) + seq![Piece::Text(end)]) == moved(
            cur,
            value_text(cur.frames, lead, v, end),
        ),
{
    let jv = java_pieces(v, None);
    let p = indent_prefix(cur.frames);
    lemma_run_one(cur, Piece::Text(lead));
    lemma_put_text(cur, lead);
    let c1 = run(cur, seq![Piece::Text(lead)]);
    law_values_close_their_blocks(v, None);
    lemma_run_section(c1, jv);
    lemma_run_balanced(c1, jv);
    let c2 = run(c1, jv);
    lemma_run_concat(cur, seq![Piece::Text(lead)], jv);
    lemma_run_one(c2, Piece::Text(end));
    lemma_put_text(c2, end);
    let c3 = run(c2, seq![Piece::Text(end)]);
    lemma_run_concat(cur, seq![Piece::Text(lead)] + jv, seq![Piece::Text(end)]);
    assert(c3.out =~= cur.out + value_text(cur.frames, lead, v, end));
}

#[verifier::spinoff_prover]
proof fn lemma_run_output_head(cur: Cursor, o: OutputInstruction)
    requires
        cur.at_line_start,
    ensures
        run(cur, output_head_pieces(o)) == (Cursor {
            out: cur.out + output_head_text(cur.frames, o),
            frames: cur.frames.push(builder_layout(o)),
            at_line_start: true,
        }),
{
    let var = spec_camel_case(o.name@);
    let l = builder_layout(o);
    let jv = java_pieces(o.value, None);
    reveal_strlit(";\n");
    reveal_strlit(" : Optional.empty();\n");
    let (lead, end, vline) = match o.condition {
        None => ("this."@ + var + " = "@, ";\n"@, ".value(this."@ + var + ".toString())"@),
        Some(c) => (
            "this."@ + var + " = "@ + spec_camel_case(c@) + " ? "@,
            " : Optional.empty();\n"@,
            ".value(_"@ + var + ".toString())"@,
        ),
    };
    let v = seq![Piece::Text(lead)] + jv + seq![Piece::Text(end)];
    let ob = seq![Piece::Open(l)];
    assert(output_head_pieces(o) =~= v + ob + line_of(vline));
    lemma_run_value(cur, lead, o.value, end);
    let c1 = run(cur, v);
    lemma_run_open_leading(c1, l);
    let c2 = run(c1, ob);
    lemma_run_concat(cur, v, ob);
    lemma_indent_push(cur.frames, l);
    lemma_run_line(c2, vline);
    let c3 = run(c2, line_of(vline));
    lemma_run_concat(cur, v + ob, line_of(vline));
    assert(c3.out =~= cur.out + output_head_text(cur.frames, o));
}

proof fn lemma_run_description(cur: Cursor, o: OutputInstruction)
    requires
        cur.at_line_start,
    ensures
        run(cur, description_pieces(o)) == moved(cur, description_text(indent_prefix(cur.frames), o)),
{
    match o.description {
        Some(x) => lemma_run_line(cur, ".description(\""@ + x@ + "\")"@),
        None => {
            assert(cur.out + Seq::<char>::empty() =~= cur.out);
        },
    }
}

proof fn lemma_run_export(cur: Cursor, o: OutputInstruction)
    requires
        cur.at_line_start,
    ensures
        run(cur, export_pieces(o)) == moved(cur, export_text(cur.frames, o)),
{
    reveal_strlit(")\n");
    match o.export {
        Some(e) => lemma_run_value(cur, ".exportName("@, e, ")\n"@),
        None => {
            assert(cur.out + Seq::<char>::empty() =~= cur.out);
        },
    }
}

#[verifier::spinoff_prover]
proof fn lemma_run_output(cur: Cursor, o: OutputInstruction)
    requires
        cur.at_line_start,
    ensures
        run(cur, output_pieces(o)) == moved(cur, output_text(cur.frames, o)),
{
    let l = builder_layout(o);
    let h = output_head_pieces(o);
    let d = description_pieces(o);
    let x = export_pieces(o);
    let k = seq![Piece::Close];
    let n = seq![Piece::Text(nl())];
    assert(output_pieces(o) =~= h + d + x + k + n);
    lemma_run_output_head(cur, o);
    let c1 = run(cur, h);
    lemma_indent_push(cur.frames, l);
    lemma_run_description(c1, o);
    let c2 = run(c1, d);
    lemma_run_concat(cur, h, d);
    lemma_run_export(c2, o);
    let c3 = run(c2, x);
    lemma_run_concat(cur, h + d, x);
    assert(c3.frames.drop_last() =~= cur.frames);
    lemma_run_close_trailing(c3);
    let c4 = run(c3, k);
    lemma_run_concat(cur, h + d + x, k);
    lemma_run_break(c4);
    let c5 = run(c4, n);
    lemma_run_concat(cur, h + d + x + k, n);
    assert(c5.out =~= cur.out + output_text(cur.frames, o));
}

proof fn lemma_run_outputs(cur: Cursor, s: Seq<OutputInstruction>)
    requires
        cur.at_line_start,
    ensures
        run(cur, outputs_pieces(s)) == moved(cur, outputs_text(cur.frames, s)),
    decreases s.len(),
{
    if s.len() == 0 {
        assert(cur.out + Seq::<char>::empty() =~= cur.out);
    } else {
        lemma_run_outputs(cur, s.drop_last());
        let c1 = run(cur, outputs_pieces(s.drop_last()));
        lemma_run_output(c1, s.last());
        lemma_run_concat(cur, outputs_pieces(s.drop_last()), output_pieces(s.last()));
        assert(run(c1, output_pieces(s.last())).out =~= cur.out + outputs_text(cur.frames, s));
    }
}

/// The statements of the outputs are written in the outputs' order, each
/// as `output_text` gives it: exactly one `CfnOutput` builder per output.
proof fn lemma_outputs_section(frames: Seq<Layout>, s: Seq<OutputInstruction>)
    ensures
        section(frames, true, outputs_pieces(s)) == outputs_text(frames, s),
{
    let cur = Cursor { out: Seq::empty(), frames, at_line_start: true };
    lemma_run_outputs(cur, s);
    assert(Seq::<char>::empty() + outputs_text(frames, s) =~= outputs_text(frames, s));
}

// ---------------------------------------------------------------------------
// Resources
// ---------------------------------------------------------------------------

/// What writing one resource adds: its declaration, a line break and its
/// attribute statements.
pub open spec fn resource_group(r: crate::ir::ResourceInstruction) -> Seq<Piece> {
    resource_pieces(r) + seq![Piece::Text(nl())] + attribute_pieces(r, r.condition is Some)
}

/// The text of the resources under the blocks `frames`: each resource's
/// group in turn, in the resources' order.
pub open spec fn resources_text(frames: Seq<Layout>, s: Seq<crate::ir::ResourceInstruction>) -> Seq<char>
    decreases s.len(),
{
    if s.len() == 0 {
        Seq::empty()
    } else {
        resources_text(frames, s.drop_last()) + section(frames, true, resource_group(s.last()))
    }
}

proof fn lemma_run_resources(cur: Cursor, s: Seq<crate::ir::ResourceInstruction>)
    requires
        cur.at_line_start,
    ensures
        run(cur, resources_pieces(s)) == moved(cur, resources_text(cur.frames, s)),
    decreases s.len(),
{
    if s.len() == 0 {
        assert(cur.out + Seq::<char>::empty() =~= cur.out);
    } else {
        let r = s.last();
        lemma_run_resources(cur, s.drop_last());
        let c1 = run(cur, resources_pieces(s.drop_last()));
        let one = seq![r];
        assert(one.drop_last() =~= Seq::<crate::ir::ResourceInstruction>::empty());
        assert(one.last() == r);
        assert(resources_pieces(one.drop_last()) =~= Seq::<Piece>::empty());
        assert(resources_pieces(one) == resources_pieces(one.drop_last()) + resource_pieces(r) + seq![
            Piece::Text(nl()),
        ] + attribute_pieces(r, r.condition is Some));
        assert(resources_pieces(one) =~= resource_group(r));
        lemma_resources_balanced(one);
        lemma_resources_end(one);
        lemma_run_closed_section(c1, resource_group(r));
        assert(resources_pieces(s) =~= resources_pieces(s.drop_last()) + resource_group(r));
        lemma_run_concat(cur, resources_pieces(s.drop_last()), resource_group(r));
        assert(run(c1, resource_group(r)).out =~= cur.out + resources_text(cur.frames, s));
    }
}

/// Writing the resources gives the same text as writing, for each resource
/// in turn, its declaration, a line break and its attribute statements;
/// with no resources nothing is written.
proof fn lemma_resources_section(frames: Seq<Layout>, s: Seq<crate::ir::ResourceInstruction>)
    ensures
        section(frames, true, resources_pieces(s)) == resources_text(frames, s),
        s.len() == 0 ==> resources_text(frames, s) == Seq::<char>::empty(),
{
    let cur = Cursor { out: Seq::empty(), frames, at_line_start: true };
    lemma_run_resources(cur, s);
    assert(Seq::<char>::empty() + resources_text(frames, s) =~= resources_text(frames, s));
}

// ---------------------------------------------------------------------------
// Tag values
// ---------------------------------------------------------------------------

proof fn lemma_rendered_text(t: Seq<char>)
    ensures
        rendered(seq![Piece::Text(t)]) == t,
{
    lemma_run_one(start(), Piece::Text(t));
    lemma_put_text(start(), t);
    assert(indent_prefix(start().frames) =~= Seq::<char>::empty());
    lemma_lay_no_indent(t, true);
    assert(Seq::<char>::empty() + t =~= t);
    let c = run(start(), seq![Piece::Text(t)]);
    assert(c.frames.len() == 0);
    assert(close_all(c) == c);
}

/// A literal tag value (a boolean or a number) renders as `String.valueOf`
/// of what the value itself renders to; any other tag value renders as the
/// value does.
pub proof fn law_tag_values_text(ir: ResourceIr, class: Option<Seq<char>>)
    ensures
        crate::emit::is_literal_tag(ir) ==> rendered(crate::emit::tag_value_pieces(ir, class)) == "String.valueOf("@
            + rendered(java_pieces(ir, class)) + ")"@,
        !crate::emit::is_literal_tag(ir) ==> rendered(crate::emit::tag_value_pieces(ir, class)) == rendered(
            java_pieces(ir, class),
        ),
{
    match ir {
        ResourceIr::Bool(b) => {
            lemma_rendered_text(crate::text::bool_text(b));
            lemma_rendered_text(crate::emit::literal_tag_text(ir));
        },
        ResourceIr::Double(t) => {
            lemma_rendered_text(t.display@);
            lemma_rendered_text(crate::emit::literal_tag_text(ir));
        },
        ResourceIr::Number(n) => {
            lemma_rendered_text(crate::text::int_text(n as int));
            lemma_rendered_text(crate::emit::literal_tag_text(ir));
        },
        _ => {},
    }
}

// ---------------------------------------------------------------------------
// What each writer writes, clause by clause
// ---------------------------------------------------------------------------

proof fn lemma_suffix(a: Seq<char>, b: Seq<char>)
    ensures
        b.is_suffix_of(a + b),
{
    assert((a + b).subrange(a.len() as int, (a + b).len() as int) =~= b);
}

/// What `Java::write_stack_definitions` writes, line by line. The
/// constructor with stack properties either calls the parent class (with
/// no parameters) or has the one line `this(scope, id, props` followed by
/// one `, null` per parameter and `);`. The full constructor then has one
/// line per parameter, in order, its type and name, each ending with a
/// comma but the last, which ends with `) {`; a line without line breaks
/// is written as it is, indented. What is written after the constructors,
/// closing every block it opens, lands in the body of the last
/// constructor, before its closing brace.
pub proof fn law_write_stack_definitions(props: Seq<ParamModel>, stack: Seq<char>, body: Seq<Piece>)
    requires
        balanced(body),
    ensures
        rendered(stack_definition_pieces(props, stack) + body) == ctors_text(Seq::empty(), props, stack)
            + section(seq![last_ctor(props, stack)], true, body) + "}"@ + nl(),
        props.len() == 0 ==> ctors_text(Seq::empty(), props, stack) == laid_line(Seq::empty(), short_ctor(stack))
            + laid_line(ind1(), "super(scope, id, null);"@) + laid_line(Seq::empty(), "}"@) + nl() + laid_line(
            Seq::empty(),
            props_ctor(stack),
        ) + laid_line(ind1(), "super(scope, id, props);"@),
        props.len() > 0 ==> ctors_text(Seq::empty(), props, stack) == laid_line(Seq::empty(), short_ctor(stack))
            + laid_line(ind1(), "super(scope, id, null);"@) + laid_line(Seq::empty(), "}"@) + nl() + laid_line(
            Seq::empty(),
            props_ctor(stack),
        ) + laid_line(ind1(), "this(scope, id, props"@ + repeat_text(", null"@, props.len()) + ");"@) + laid_line(
            Seq::empty(),
            "}"@,
        ) + nl() + laid_line(Seq::empty(), full_ctor(stack)) + params_text(ind1(), props, props.len()) + laid_line(
            ind1(),
            "super(scope, id, props);"@,
        ) + nl(),
        forall|k: int|
            0 <= k < props.len() ==> #[trigger] params_text(ind1(), props.take(k + 1), props.len()) == params_text(
                ind1(),
                props.take(k),
                props.len(),
            ) + laid_line(
                ind1() + ind1(),
                props[k].java_type + " "@ + props[k].name + if k == props.len() - 1 {
                    ") {"@
                } else {
                    ","@
                },
            ),
        props.take(props.len() as int) == props,
        forall|p: Seq<char>, t: Seq<char>| crate::laws::no_break(t) ==> #[trigger] laid_line(p, t) == (if t.len() > 0 {
            p + t
        } else {
            Seq::<char>::empty()
        }) + nl(),
{
    lemma_constructors_section(props, stack, body);
    assert(Seq::<char>::empty() + ind1() =~= ind1());
    assert forall|k: int| 0 <= k < props.len() implies #[trigger] params_text(
        ind1(),
        props.take(k + 1),
        props.len(),
    ) == params_text(ind1(), props.take(k), props.len()) + laid_line(
        ind1() + ind1(),
        props[k].java_type + " "@ + props[k].name + if k == props.len() - 1 {
            ") {"@
        } else {
            ","@
        },
    ) by {
        assert(props.take(k + 1).drop_last() =~= props.take(k));
        assert(props.take(k + 1).last() == props[k]);
    }
    assert(props.take(props.len() as int) =~= props);
    assert forall|p: Seq<char>, t: Seq<char>| crate::laws::no_break(t) implies #[trigger] laid_line(p, t) == (if t.len()
        > 0 {
        p + t
    } else {
        Seq::<char>::empty()
    }) + nl() by {
        lemma_laid_line_plain(p, t);
    }
}

/// What `Java::write_props` writes: the parameters in order, each as
/// `prop_text` gives it. A parameter without a default adds only a line
/// break; one with a default and an `AWS::` type ends with
/// `.getValueAsList();` when its type names a list and with
/// `.getValueAsString();` otherwise; any other parameter with a default
/// adds one assignment to its name.
pub proof fn law_write_props(frames: Seq<Layout>, s: Seq<ParamModel>)
    ensures
        section(frames, true, props_pieces(s)) == props_text(indent_prefix(frames), s),
        forall|b: Seq<char>, k: int|
            0 <= k < s.len() ==> #[trigger] props_text(b, s.take(k + 1)) == props_text(b, s.take(k)) + prop_text(
                b,
                s[k],
            ),
        s.take(s.len() as int) == s,
        forall|b: Seq<char>, p: ParamModel| p.default_value is None ==> #[trigger] prop_text(b, p) == nl(),
        forall|b: Seq<char>, p: ParamModel|
            p.default_value is Some && seq_contains(p.constructor_type, "AWS::"@) ==> laid_line(
                b + ind2() + ind2(),
                "."@ + (if seq_contains(p.constructor_type, "List"@) {
                    "getValueAsList"@
                } else {
                    "getValueAsString"@
                }) + "();"@,
            ).is_suffix_of(#[trigger] prop_text(b, p)),
        forall|b: Seq<char>, p: ParamModel|
            p.default_value is Some && !seq_contains(p.constructor_type, "AWS::"@) ==> #[trigger] prop_text(b, p)
                == laid_line(
                b,
                p.name + " = Optional.ofNullable("@ + p.name + ").isPresent() ? "@ + p.name + "\n"@ + ind2() + ": \""@
                    + p.default_value->0 + "\";"@,
            ),
{
    lemma_props_section(frames, s);
    assert forall|b: Seq<char>, k: int| 0 <= k < s.len() implies #[trigger] props_text(b, s.take(k + 1)) == props_text(
        b,
        s.take(k),
    ) + prop_text(b, s[k]) by {
        assert(s.take(k + 1).drop_last() =~= s.take(k));
        assert(s.take(k + 1).last() == s[k]);
    }
    assert(s.take(s.len() as int) =~= s);
    assert forall|b: Seq<char>, p: ParamModel|
        p.default_value is Some && seq_contains(p.constructor_type, "AWS::"@) implies laid_line(
        b + ind2() + ind2(),
        "."@ + (if seq_contains(p.constructor_type, "List"@) {
            "getValueAsList"@
        } else {
            "getValueAsString"@
        }) + "();"@,
    ).is_suffix_of(#[trigger] prop_text(b, p)) by {
        let v = p.default_value->0;
        let value_as = if seq_contains(p.constructor_type, "List"@) {
            "getValueAsList"@
        } else {
            "getValueAsString"@
        };
        let b2 = b + ind2();
        let b4 = b2 + ind2();
        let front = laid_line(b, p.name + " = Optional.ofNullable("@ + p.name + ").isPresent()"@) + laid_line(
            b2,
            "? "@ + p.name,
        ) + laid_line(b2, ": CfnParameter.Builder.create(this, \""@ + spec_pascal_case(p.name) + "\")"@)
            + laid_line(b4, ".type(\""@ + p.constructor_type + "\")"@) + laid_line(b4, ".defaultValue(\""@ + v + "\")"@)
            + laid_line(b4, ".build()"@);
        assert(prop_text(b, p) == front + laid_line(b4, "."@ + value_as + "();"@));
        lemma_suffix(front, laid_line(b4, "."@ + value_as + "();"@));
    }
}

/// What `Java::write_output_fields` writes: first one field line per
/// output, in order, then one getter per output, in order; the field and
/// the getter of an output have the same type, `Optional<Object>` for an
/// output under a condition and `Object` otherwise.
pub proof fn law_write_output_fields(frames: Seq<Layout>, s: Seq<OutputInstruction>)
    ensures
        section(frames, true, output_field_pieces(s)) == fields_text(indent_prefix(frames), s) + getters_text(
            indent_prefix(frames),
            s,
        ),
        s.take(s.len() as int) == s,
        forall|b: Seq<char>, k: int|
            0 <= k < s.len() ==> #[trigger] fields_text(b, s.take(k + 1)) == fields_text(b, s.take(k)) + laid_line(
                b,
                "private "@ + field_type_text(s[k].condition is Some) + " "@ + spec_camel_case(s[k].name@) + ";\n"@,
            ),
        forall|b: Seq<char>, k: int|
            0 <= k < s.len() ==> #[trigger] getters_text(b, s.take(k + 1)) == getters_text(b, s.take(k)) + laid_line(
                b,
                "public "@ + field_type_text(s[k].condition is Some) + " get"@ + spec_pascal_case(s[k].name@)
                    + "() {"@,
            ) + laid_line(b + ind1(), "return this."@ + spec_camel_case(s[k].name@) + ";"@) + laid_line(b, "}\n"@),
{
    lemma_output_fields_section(frames, s);
    assert(s.take(s.len() as int) =~= s);
    assert forall|b: Seq<char>, k: int| 0 <= k < s.len() implies #[trigger] fields_text(b, s.take(k + 1))
        == fields_text(b, s.take(k)) + laid_line(
        b,
        "private "@ + field_type_text(s[k].condition is Some) + " "@ + spec_camel_case(s[k].name@) + ";\n"@,
    ) by {
        assert(s.take(k + 1).drop_last() =~= s.take(k));
        assert(s.take(k + 1).last() == s[k]);
    }
    assert forall|b: Seq<char>, k: int| 0 <= k < s.len() implies #[trigger] getters_text(b, s.take(k + 1))
        == getters_text(b, s.take(k)) + laid_line(
        b,
        "public "@ + field_type_text(s[k].condition is Some) + " get"@ + spec_pascal_case(s[k].name@) + "() {"@,
    ) + laid_line(b + ind1(), "return this."@ + spec_camel_case(s[k].name@) + ";"@) + laid_line(b, "}\n"@) by {
        assert(s.take(k + 1).drop_last() =~= s.take(k));
        assert(s.take(k + 1).last() == s[k]);
    }
}

/// What `Java::write_outputs` writes: the outputs in order, each as
/// `output_text` gives it, with exactly one `CfnOutput` builder per output.
/// The builder is opened inside `ifPresent` exactly when the output has a
/// condition; it has a description line exactly when the output has a
/// description, and an export name exactly when it has an export.
pub proof fn law_write_outputs(frames: Seq<Layout>, s: Seq<OutputInstruction>)
    ensures
        section(frames, true, outputs_pieces(s)) == outputs_text(frames, s),
        s.take(s.len() as int) == s,
        forall|k: int|
            0 <= k < s.len() ==> #[trigger] outputs_text(frames, s.take(k + 1)) == outputs_text(frames, s.take(k))
                + output_text(frames, s[k]),
        forall|o: OutputInstruction|
            #[trigger] builder_layout(o).leading == Some(
                if o.condition is Some {
                    "this."@ + spec_camel_case(o.name@) + ".ifPresent(_"@ + spec_camel_case(o.name@)
                        + " -> CfnOutput.Builder.create(this, \""@ + o.name@ + "\")"@
                } else {
                    "CfnOutput.Builder.create(this, \""@ + o.name@ + "\")"@
                },
            ),
        forall|b: Seq<char>, o: OutputInstruction|
            (#[trigger] description_text(b, o)).len() > 0 <==> o.description is Some,
        forall|f: Seq<Layout>, o: OutputInstruction| (#[trigger] export_text(f, o)).len() > 0 <==> o.export is Some,
{
    lemma_outputs_section(frames, s);
    assert(s.take(s.len() as int) =~= s);
    assert forall|k: int| 0 <= k < s.len() implies #[trigger] outputs_text(frames, s.take(k + 1)) == outputs_text(
        frames,
        s.take(k),
    ) + output_text(frames, s[k]) by {
        assert(s.take(k + 1).drop_last() =~= s.take(k));
        assert(s.take(k + 1).last() == s[k]);
    }
    assert forall|b: Seq<char>, o: OutputInstruction| (#[trigger] description_text(b, o)).len() > 0 <==> o.description is Some by {
        match o.description {
            Some(d) => {
                lemma_laid_line_len(b, ".description(\""@ + d@ + "\")"@);
            },
            None => {},
        }
    }
    assert forall|f: Seq<Layout>, o: OutputInstruction| (#[trigger] export_text(f, o)).len() > 0 <==> o.export is Some by {
        match o.export {
            Some(e) => {
                reveal_strlit(".exportName(");
                lemma_lay_len(indent_prefix(f), ".exportName("@, true);
            },
            None => {},
        }
    }
}

proof fn lemma_lay_len(p: Seq<char>, s: Seq<char>, at: bool)
    ensures
        lay(p, s, at).len() >= s.len(),
    decreases s.len(),
{
    if s.len() > 0 {
        lemma_lay_len(p, s.drop_last(), at);
    }
}

proof fn lemma_laid_line_len(p: Seq<char>, s: Seq<char>)
    ensures
        laid_line(p, s).len() > 0,
{
    reveal_strlit("\n");
    lemma_lay_len(p, s + nl(), true);
}

/// What `Java::write_resources` writes: for each resource in turn, the
/// same text as its declaration (what `Java::write_resource` writes), a
/// line break (`newline`) and its attribute statements (what
/// `Java::write_resource_attributes` writes, with the resource's own
/// condition); with no resources, nothing.
pub proof fn law_write_resources(frames: Seq<Layout>, s: Seq<crate::ir::ResourceInstruction>)
    ensures
        section(frames, true, resources_pieces(s)) == resources_text(frames, s),
        s.len() == 0 ==> resources_text(frames, s) == Seq::<char>::empty(),
        s.take(s.len() as int) == s,
        forall|k: int|
            0 <= k < s.len() ==> #[trigger] resources_text(frames, s.take(k + 1)) == resources_text(frames, s.take(k))
                + section(frames, true, resource_group(s[k])),
        forall|r: crate::ir::ResourceInstruction|
            #[trigger] resource_group(r) == resource_pieces(r) + seq![Piece::Text(nl())] + attribute_pieces(
                r,
                r.condition is Some,
            ),
{
    lemma_resources_section(frames, s);
    assert(s.take(s.len() as int) =~= s);
    assert forall|k: int| 0 <= k < s.len() implies #[trigger] resources_text(frames, s.take(k + 1)) == resources_text(
        frames,
        s.take(k),
    ) + section(frames, true, resource_group(s[k])) by {
        assert(s.take(k + 1).drop_last() =~= s.take(k));
        assert(s.take(k + 1).last() == s[k]);
    }
}

/// What `Java::synthesize` returns, in order: the package line and the
/// header imports, one import line per template import in the template's
/// order, the class line, the output fields and getters, the constructors,
/// then in the last constructor the parameters' defaults, the mappings, the
/// conditions, the resources and the outputs; the file ends with the
/// closing braces of the constructor and of the class.
#[verifier::spinoff_prover]
pub proof fn law_synthesize(package: Seq<char>, ir: CloudformationProgramIr, stack: Seq<char>)
    ensures
        rendered(synthesis_pieces(package, ir, stack)) == (header_text(package) + imports_text(ir.imports@) + nl()
            + "class "@ + stack + " extends Stack {"@ + nl() + fields_text(ind1(), ir.outputs@) + getters_text(
            ind1(),
            ir.outputs@,
        ) + ctors_text(ind1(), params_of(ir), stack)) + (props_text(ind1() + ind1(), params_of(ir)) + section(
            body_frames(ir, stack),
            true,
            write_mappings_pieces(ir),
        ) + conditions_text(ind1() + ind1(), ir.conditions@) + nl() + resources_text(
            body_frames(ir, stack),
            ir.resources@,
        ) + outputs_text(body_frames(ir, stack), ir.outputs@)) + ind1() + "}"@ + nl() + "}"@ + nl(),
        header_text(package).subrange(0, ("package "@ + package + ";"@ + nl()).len() as int) == "package "@ + package
            + ";"@ + nl(),
        forall|k: int|
            0 <= k < ir.imports@.len() ==> #[trigger] imports_text(ir.imports@.take(k + 1)) == imports_text(
                ir.imports@.take(k),
            ) + import_text(ir.imports@[k]) + nl(),
        ir.imports@.take(ir.imports@.len() as int) == ir.imports@,
{
    lemma_file_text(package, ir, stack);
    lemma_body_text_parts(ir, stack);
    lemma_header_starts(package);
    let s = ir.imports@;
    assert forall|k: int| 0 <= k < s.len() implies #[trigger] imports_text(s.take(k + 1)) == imports_text(s.take(k))
        + import_text(s[k]) + nl() by {
        assert(s.take(k + 1).drop_last() =~= s.take(k));
        assert(s.take(k + 1).last() == s[k]);
    }
    assert(s.take(s.len() as int) =~= s);
}

proof fn lemma_header_starts(package: Seq<char>)
    ensures
        header_text(package).subrange(0, ("package "@ + package + ";"@ + nl()).len() as int) == "package "@ + package
            + ";"@ + nl(),
{
    let first = "package "@ + package + ";"@ + nl();
    let rest = header_text(package).subrange(first.len() as int, header_text(package).len() as int);
    assert(header_text(package) =~= first + (nl() + "import software.constructs.Construct;"@ + nl() + nl()
        + "import java.util.*;"@ + nl() + "import software.amazon.awscdk.*;"@ + nl()
        + "import software.amazon.awscdk.CfnMapping;"@ + nl() + "import software.amazon.awscdk.CfnTag;"@ + nl()
        + "import software.amazon.awscdk.Stack;"@ + nl() + "import software.amazon.awscdk.StackProps;"@ + nl()));
}

#[verifier::spinoff_prover]
proof fn lemma_body_text_parts(ir: CloudformationProgramIr, stack: Seq<char>)
    ensures
        body_text(body_frames(ir, stack), ir) == props_text(ind1() + ind1(), params_of(ir)) + section(
            body_frames(ir, stack),
            true,
            write_mappings_pieces(ir),
        ) + conditions_text(ind1() + ind1(), ir.conditions@) + nl() + resources_text(
            body_frames(ir, stack),
            ir.resources@,
        ) + outputs_text(body_frames(ir, stack), ir.outputs@),
{
    let F = body_frames(ir, stack);
    let cl = class_layout(stack);
    lemma_resources_section(F, ir.resources@);
    lemma_outputs_section(F, ir.outputs@);
    lemma_indent_push(Seq::<Layout>::empty(), cl);
    assert(seq![cl] =~= Seq::<Layout>::empty().push(cl));
    assert(F =~= seq![cl].push(last_ctor(params_of(ir), stack)));
    lemma_indent_push(seq![cl], last_ctor(params_of(ir), stack));
    assert(indent_prefix(Seq::<Layout>::empty()) =~= Seq::<char>::empty());
    assert(indent_prefix(seq![cl]) =~= ind1());
    assert(indent_prefix(F) =~= ind1() + ind1());
}

} // verus!
