//! Properties that hold of every use of the code buffer and the
//! synthesizer.
use vstd::prelude::*;
use crate::emit::{
    is_literal_tag, java_pieces, map_entries, property_entries, separated, sub_parts, tag_entries, tag_value_pieces,
};
use crate::ir::{ResourceIr, Structure};
use crate::text::{alphanumeric_only, eq_ignore_ascii_case, spec_camel_case, spec_is_alphanumeric};
use crate::java::{
    attribute_pieces, attribute_target, attribute_trailer, condition_lines, ctor_layout, dependency_pieces,
    full_ctor, header_pieces, import_lines, import_text, mapping_inner_rows, mapping_rows,
    mappings_pieces, metadata_entries, metadata_pieces, name_text, output_field_lines, output_field_pieces,
    output_getters, output_pieces, outputs_pieces, param_lines, policy_pieces, prop_pieces,
    props_pieces, props_ctor, resource_pieces, resources_pieces, short_ctor, stack_definition_pieces,
    synthesis_pieces, write_mappings_pieces, ParamModel,
};
use crate::ir::{ConditionInstruction, MappingInnerValue, OutputInstruction, ResourceInstruction};
use crate::ir::{CloudformationProgramIr, ImportInstruction};
use crate::code::{
    close_all, close_block, indent_prefix, line_of, nl, put_char, put_text, rendered, run, start, step,
    Cursor, Layout, Piece,
};

verus! {

// ---------------------------------------------------------------------------
// Rendering only appends
// ---------------------------------------------------------------------------

proof fn lemma_put_text_appends(cur: Cursor, s: Seq<char>)
    ensures
        cur.out.is_prefix_of(put_text(cur, s).out),
    decreases s.len(),
{
    if s.len() > 0 {
        lemma_put_text_appends(cur, s.drop_last());
        let c = put_text(cur, s.drop_last());
        assert(c.out.is_prefix_of(put_char(c, s.last()).out));
    }
}

proof fn lemma_step_appends(cur: Cursor, p: Piece)
    ensures
        cur.out.is_prefix_of(step(cur, p).out),
{
    match p {
        Piece::Text(s) => lemma_put_text_appends(cur, s),
        Piece::Open(l) => {
            match l.leading {
                Some(t) => {
                    lemma_put_text_appends(cur, t);
                    let c = put_text(cur, t);
                    assert(c.out.is_prefix_of(put_char(c, '\n').out));
                },
                None => {},
            }
        },
        Piece::Close => {
            if cur.frames.len() > 0 {
                let l = cur.frames.last();
                let c1 = Cursor { out: cur.out, frames: cur.frames.drop_last(), at_line_start: cur.at_line_start };
                match l.trailing {
                    Some(t) => {
                        lemma_put_text_appends(c1, t);
                        let c2 = put_text(c1, t);
                        assert(c2.out.is_prefix_of(put_char(c2, '\n').out));
                    },
                    None => {},
                }
            }
        },
    }
}

proof fn lemma_run_appends(cur: Cursor, ps: Seq<Piece>)
    ensures
        cur.out.is_prefix_of(run(cur, ps).out),
    decreases ps.len(),
{
    if ps.len() > 0 {
        lemma_run_appends(cur, ps.drop_last());
        lemma_step_appends(run(cur, ps.drop_last()), ps.last());
    }
}

proof fn lemma_run_concat(cur: Cursor, ps: Seq<Piece>, qs: Seq<Piece>)
    ensures
        run(cur, ps + qs) == run(run(cur, ps), qs),
    decreases qs.len(),
{
    if qs.len() == 0 {
        assert(ps + qs =~= ps);
    } else {
        assert((ps + qs).drop_last() =~= ps + qs.drop_last());
        assert((ps + qs).last() == qs.last());
        lemma_run_concat(cur, ps, qs.drop_last());
    }
}

proof fn lemma_close_all_appends(cur: Cursor)
    ensures
        cur.out.is_prefix_of(close_all(cur).out),
    decreases cur.frames.len(),
{
    if cur.frames.len() > 0 {
        lemma_step_appends(cur, Piece::Close);
        crate::code::lemma_close_block_frames(cur);
        lemma_close_all_appends(close_block(cur));
    }
}

/// Writing never changes what was written before: the text laid out for
/// some pieces begins the text laid out once more pieces follow them, and
/// begins the rendered text.
pub proof fn law_rendering_appends(ps: Seq<Piece>, qs: Seq<Piece>)
    ensures
        run(start(), ps).out.is_prefix_of(run(start(), ps + qs).out),
        run(start(), ps).out.is_prefix_of(rendered(ps + qs)),
{
    lemma_run_concat(start(), ps, qs);
    lemma_run_appends(run(start(), ps), qs);
    lemma_close_all_appends(run(start(), ps + qs));
}

// ---------------------------------------------------------------------------
// Indentation
// ---------------------------------------------------------------------------

/// A text holds no line break.
pub open spec fn no_break(s: Seq<char>) -> bool {
    forall|i: int| 0 <= i < s.len() ==> s[i] != '\n'
}

/// Text without line breaks is written as it is; when it begins a line,
/// the indentation of every open block comes first, once.
pub proof fn law_indented_text(cur: Cursor, s: Seq<char>)
    requires
        no_break(s),
        s.len() > 0,
    ensures
        put_text(cur, s).out == cur.out + (if cur.at_line_start {
            indent_prefix(cur.frames)
        } else {
            Seq::empty()
        }) + s,
        !put_text(cur, s).at_line_start,
        put_text(cur, s).frames == cur.frames,
    decreases s.len(),
{
    if s.len() == 1 {
        assert(s.drop_last() =~= Seq::<char>::empty());
        assert(put_text(cur, s.drop_last()) == cur);
        let pre = if cur.at_line_start {
            indent_prefix(cur.frames)
        } else {
            Seq::empty()
        };
        assert(s =~= seq![s[0]]);
        assert(put_text(cur, s).out =~= cur.out + pre + s);
    } else {
        let t = s.drop_last();
        assert(no_break(t)) by {
            assert forall|i: int| 0 <= i < t.len() implies t[i] != '\n' by {
                assert(t[i] == s[i]);
            }
        }
        law_indented_text(cur, t);
        assert(s.last() == s[s.len() - 1]);
        let pre = if cur.at_line_start {
            indent_prefix(cur.frames)
        } else {
            Seq::empty()
        };
        assert(put_text(cur, s).out =~= cur.out + pre + s) by {
            assert(s =~= t.push(s.last()));
        }
    }
}

/// A block with a leading line, one body line and a trailing line, written
/// at the start of the file, lays out as the leading line, the body line
/// indented by the block, and the trailing line.
pub proof fn law_block_layout(indent: Seq<char>, leading: Seq<char>, body: Seq<char>, trailing: Seq<char>)
    requires
        no_break(indent),
        no_break(leading),
        no_break(body),
        no_break(trailing),
        leading.len() > 0,
        body.len() > 0,
        trailing.len() > 0,
    ensures
        rendered(
            seq![Piece::Open(Layout { indent, leading: Some(leading), trailing: Some(trailing), trailing_newline: true })]
                + line_of(body) + seq![Piece::Close],
        ) == leading + seq!['\n'] + indent + body + seq!['\n'] + trailing + seq!['\n'],
{
    reveal_strlit("\n");
    let l = Layout { indent, leading: Some(leading), trailing: Some(trailing), trailing_newline: true };
    let ps = seq![Piece::Open(l)] + line_of(body) + seq![Piece::Close];
    let c0 = start();
    law_indented_text(c0, leading);
    assert(indent_prefix(c0.frames) =~= Seq::<char>::empty());
    let c1 = step(c0, Piece::Open(l));
    assert(c1.out =~= leading + seq!['\n']);
    assert(c1.at_line_start);
    assert(c1.frames =~= seq![l]);
    assert(indent_prefix(c1.frames) =~= indent) by {
        assert(c1.frames.drop_last() =~= Seq::<Layout>::empty());
    }
    law_indented_text(c1, body);
    let c2 = step(c1, Piece::Text(body));
    assert(nl() =~= seq!['\n']);
    assert(nl().drop_last() =~= Seq::<char>::empty());
    assert(nl().last() == '\n');
    assert(put_text(c2, nl().drop_last()) == c2);
    assert(c2.frames == c1.frames);
    let c3 = step(c2, Piece::Text(nl()));
    assert(c3 == put_char(c2, '\n'));
    assert(c3.out =~= leading + seq!['\n'] + indent + body + seq!['\n']);
    assert(c3.at_line_start);
    let c3b = Cursor { out: c3.out, frames: c3.frames.drop_last(), at_line_start: c3.at_line_start };
    law_indented_text(c3b, trailing);
    assert(c3.frames.drop_last() =~= Seq::<Layout>::empty());
    let c4 = step(c3, Piece::Close);
    assert(c4.out =~= leading + seq!['\n'] + indent + body + seq!['\n'] + trailing + seq!['\n']);
    assert(c4.frames.len() == 0);
    let p1 = seq![Piece::Open(l)];
    let p2 = seq![Piece::Open(l), Piece::Text(body)];
    let p3 = seq![Piece::Open(l), Piece::Text(body), Piece::Text(nl())];
    assert(p1.drop_last() =~= Seq::<Piece>::empty());
    assert(run(c0, p1.drop_last()) == c0);
    assert(p1.last() == Piece::Open(l));
    assert(run(c0, p1) == c1);
    assert(p2.drop_last() =~= p1);
    assert(p2.last() == Piece::Text(body));
    assert(run(c0, p2) == c2);
    assert(p3.drop_last() =~= p2);
    assert(p3.last() == Piece::Text(nl()));
    assert(run(c0, p3) == c3);
    assert(ps.drop_last() =~= p3);
    assert(ps.last() == Piece::Close);
    assert(run(c0, ps) == c4);
    assert(close_all(c4) == c4);
}

// ---------------------------------------------------------------------------
// Blocks are closed where they are opened
// ---------------------------------------------------------------------------

/// How a piece changes the number of open blocks.
pub open spec fn piece_delta(p: Piece) -> int {
    match p {
        Piece::Open(_) => 1,
        Piece::Close => -1,
        Piece::Text(_) => 0,
    }
}

/// How pieces change the number of open blocks.
pub open spec fn net_depth(ps: Seq<Piece>) -> int
    decreases ps.len(),
{
    if ps.len() == 0 {
        0
    } else {
        net_depth(ps.drop_last()) + piece_delta(ps.last())
    }
}

/// The least change in the number of open blocks over all prefixes of the
/// pieces (0 for the empty prefix).
pub open spec fn low_depth(ps: Seq<Piece>) -> int
    decreases ps.len(),
{
    if ps.len() == 0 {
        0
    } else {
        let here = net_depth(ps);
        let before = low_depth(ps.drop_last());
        if here < before {
            here
        } else {
            before
        }
    }
}

/// The pieces close every block they open, and no block opened before
/// them.
pub open spec fn balanced(ps: Seq<Piece>) -> bool {
    net_depth(ps) == 0 && low_depth(ps) >= 0
}

proof fn lemma_depth_concat(a: Seq<Piece>, b: Seq<Piece>)
    ensures
        net_depth(a + b) == net_depth(a) + net_depth(b),
        low_depth(a + b) == (if net_depth(a) + low_depth(b) < low_depth(a) {
            net_depth(a) + low_depth(b)
        } else {
            low_depth(a)
        }),
    decreases b.len(),
{
    if b.len() == 0 {
        assert(a + b =~= a);
    } else {
        assert((a + b).drop_last() =~= a + b.drop_last());
        assert((a + b).last() == b.last());
        lemma_depth_concat(a, b.drop_last());
    }
}

proof fn lemma_balanced_concat(a: Seq<Piece>, b: Seq<Piece>)
    requires
        balanced(a),
        balanced(b),
    ensures
        balanced(a + b),
{
    lemma_depth_concat(a, b);
}

pub(crate) proof fn lemma_balanced_text(t: Seq<char>)
    ensures
        balanced(seq![Piece::Text(t)]),
{
    let p = seq![Piece::Text(t)];
    assert(p.drop_last() =~= Seq::<Piece>::empty());
    assert(p.last() == Piece::Text(t));
    assert(net_depth(p.drop_last()) == 0);
    assert(low_depth(p.drop_last()) == 0);
}

proof fn lemma_balanced_empty()
    ensures
        balanced(Seq::<Piece>::empty()),
{
}

proof fn lemma_balanced_texts(a: Seq<char>, b: Seq<char>)
    ensures
        balanced(seq![Piece::Text(a), Piece::Text(b)]),
{
    lemma_balanced_text(a);
    lemma_balanced_text(b);
    lemma_balanced_concat(seq![Piece::Text(a)], seq![Piece::Text(b)]);
    assert(seq![Piece::Text(a)] + seq![Piece::Text(b)] =~= seq![Piece::Text(a), Piece::Text(b)]);
}

proof fn lemma_balanced_three_texts(a: Seq<char>, b: Seq<char>, c: Seq<char>)
    ensures
        balanced(seq![Piece::Text(a), Piece::Text(b), Piece::Text(c)]),
{
    lemma_balanced_texts(a, b);
    lemma_balanced_text(c);
    lemma_balanced_concat(seq![Piece::Text(a), Piece::Text(b)], seq![Piece::Text(c)]);
    assert(seq![Piece::Text(a), Piece::Text(b)] + seq![Piece::Text(c)] =~= seq![
        Piece::Text(a),
        Piece::Text(b),
        Piece::Text(c),
    ]);
}

proof fn lemma_balanced_wrap(l: Layout, m: Seq<Piece>)
    requires
        balanced(m),
    ensures
        balanced(seq![Piece::Open(l)] + m + seq![Piece::Close]),
{
    let o = seq![Piece::Open(l)];
    let c = seq![Piece::Close];
    assert(o.drop_last() =~= Seq::<Piece>::empty());
    assert(c.drop_last() =~= Seq::<Piece>::empty());
    assert(o.last() == Piece::Open(l));
    assert(c.last() == Piece::Close);
    assert(net_depth(o.drop_last()) == 0 && low_depth(o.drop_last()) == 0);
    assert(net_depth(c.drop_last()) == 0 && low_depth(c.drop_last()) == 0);
    assert(net_depth(o) == 1 && low_depth(o) == 0);
    assert(net_depth(c) == -1 && low_depth(c) == -1);
    lemma_depth_concat(o, m);
    lemma_depth_concat(o + m, c);
}

proof fn lemma_tag_value_balanced(ir: ResourceIr, class: Option<Seq<char>>)
    ensures
        balanced(tag_value_pieces(ir, class)),
    decreases ir, 1nat,
{
    if is_literal_tag(ir) {
        lemma_balanced_text(crate::emit::literal_tag_text(ir));
    } else {
        lemma_java_balanced(ir, class);
    }
}

proof fn lemma_separated_balanced(s: Seq<ResourceIr>, class: Option<Seq<char>>, sep: Seq<char>)
    ensures
        balanced(separated(s, class, sep)),
    decreases s, 0nat,
{
    if s.len() == 1 {
        lemma_java_balanced(s[0], class);
    } else if s.len() > 1 {
        lemma_separated_balanced(s.drop_last(), class, sep);
        lemma_balanced_text(sep);
        lemma_java_balanced(s.last(), class);
        lemma_balanced_concat(separated(s.drop_last(), class, sep), seq![Piece::Text(sep)]);
        lemma_balanced_concat(
            separated(s.drop_last(), class, sep) + seq![Piece::Text(sep)],
            java_pieces(s.last(), class),
        );
    }
}

proof fn lemma_map_entries_balanced(s: Seq<(String, ResourceIr)>, class: Option<Seq<char>>)
    ensures
        balanced(map_entries(s, class)),
    decreases s, 0nat,
{
    if s.len() == 1 {
        lemma_balanced_text("\""@ + s[0].0@ + "\", "@);
        lemma_java_balanced(s[0].1, class);
        lemma_balanced_concat(seq![Piece::Text("\""@ + s[0].0@ + "\", "@)], java_pieces(s[0].1, class));
    } else if s.len() > 1 {
        let head = seq![Piece::Text(",\n"@), Piece::Text("\""@ + s.last().0@ + "\", "@)];
        lemma_map_entries_balanced(s.drop_last(), class);
        lemma_balanced_texts(",\n"@, "\""@ + s.last().0@ + "\", "@);
        lemma_java_balanced(s.last().1, class);
        lemma_balanced_concat(map_entries(s.drop_last(), class), head);
        lemma_balanced_concat(map_entries(s.drop_last(), class) + head, java_pieces(s.last().1, class));
    }
}

proof fn lemma_property_entries_balanced(s: Seq<(String, ResourceIr)>, class: Option<Seq<char>>)
    ensures
        balanced(property_entries(s, class)),
    decreases s, 0nat,
{
    if s.len() > 0 {
        let open = seq![Piece::Text("."@ + crate::text::spec_camel_case(s.last().0@) + "("@)];
        let close = seq![Piece::Text(")\n"@)];
        lemma_property_entries_balanced(s.drop_last(), class);
        lemma_balanced_text("."@ + crate::text::spec_camel_case(s.last().0@) + "("@);
        lemma_balanced_text(")\n"@);
        lemma_java_balanced(s.last().1, class);
        let a = property_entries(s.drop_last(), class);
        lemma_balanced_concat(a, open);
        lemma_balanced_concat(a + open, java_pieces(s.last().1, class));
        lemma_balanced_concat(a + open + java_pieces(s.last().1, class), close);
    }
}

proof fn lemma_tag_entries_balanced(s: Seq<(String, ResourceIr)>, class: Option<Seq<char>>)
    ensures
        balanced(tag_entries(s, class)),
    decreases s, 0nat,
{
    if s.len() > 0 {
        let k = s.last().0@;
        let v = s.last().1;
        lemma_tag_entries_balanced(s.drop_last(), class);
        lemma_balanced_text(".key("@);
        lemma_balanced_text(".value("@);
        lemma_balanced_text(")\n"@);
        lemma_java_balanced(v, class);
        lemma_tag_value_balanced(v, class);
        let key_part = seq![Piece::Text(".key("@)] + java_pieces(v, class) + seq![Piece::Text(")\n"@)];
        let value_part = seq![Piece::Text(".value("@)] + tag_value_pieces(v, class) + seq![Piece::Text(")\n"@)];
        lemma_balanced_concat(seq![Piece::Text(".key("@)], java_pieces(v, class));
        lemma_balanced_concat(seq![Piece::Text(".key("@)] + java_pieces(v, class), seq![Piece::Text(")\n"@)]);
        lemma_balanced_concat(seq![Piece::Text(".value("@)], tag_value_pieces(v, class));
        lemma_balanced_concat(
            seq![Piece::Text(".value("@)] + tag_value_pieces(v, class),
            seq![Piece::Text(")\n"@)],
        );
        lemma_balanced_empty();
        let kp = if eq_ignore_ascii_case(k, "Key"@) {
            key_part
        } else {
            Seq::empty()
        };
        let vp = if eq_ignore_ascii_case(k, "Value"@) {
            value_part
        } else {
            Seq::empty()
        };
        lemma_balanced_concat(tag_entries(s.drop_last(), class), kp);
        lemma_balanced_concat(tag_entries(s.drop_last(), class) + kp, vp);
    }
}

proof fn lemma_sub_parts_balanced(s: Seq<ResourceIr>, class: Option<Seq<char>>)
    ensures
        balanced(sub_parts(s, class)),
    decreases s, 0nat,
{
    if s.len() > 0 {
        let p = s.last();
        let head = if s.len() == 1 {
            Seq::empty()
        } else {
            sub_parts(s.drop_last(), class) + seq![Piece::Text(" + "@)]
        };
        if s.len() > 1 {
            lemma_sub_parts_balanced(s.drop_last(), class);
            lemma_balanced_text(" + "@);
            lemma_balanced_concat(sub_parts(s.drop_last(), class), seq![Piece::Text(" + "@)]);
        }
        let tail = match p {
            ResourceIr::String(lit) => seq![Piece::Text("\""@ + lit@ + "\""@)],
            _ => java_pieces(p, class),
        };
        match p {
            ResourceIr::String(lit) => lemma_balanced_text("\""@ + lit@ + "\""@),
            _ => lemma_java_balanced(p, class),
        }
        lemma_balanced_concat(head, tail);
    }
}

proof fn lemma_java_balanced(ir: ResourceIr, class: Option<Seq<char>>)
    ensures
        balanced(java_pieces(ir, class)),
    decreases ir, 0nat,
{
    match ir {
        ResourceIr::Null => lemma_balanced_text("null"@),
        ResourceIr::Bool(b) => lemma_balanced_text(crate::text::bool_text(b)),
        ResourceIr::Double(t) => lemma_balanced_text(t.display@),
        ResourceIr::Number(n) => lemma_balanced_text(crate::text::int_text(n as int)),
        ResourceIr::String(t) => lemma_balanced_text("\""@ + t@ + "\""@),
        ResourceIr::Array(_, arr) => {
            lemma_separated_balanced(arr@, class, ",\n"@);
            lemma_balanced_text(")"@);
            lemma_balanced_empty();
            let inner = separated(arr@, class, ",\n"@) + crate::emit::close_paren(arr@.len());
            lemma_balanced_concat(separated(arr@, class, ",\n"@), crate::emit::close_paren(arr@.len()));
            lemma_balanced_wrap(crate::emit::array_layout(), inner);
            assert(java_pieces(ir, class) =~= seq![Piece::Open(crate::emit::array_layout())] + inner + seq![
                Piece::Close,
            ]);
        },
        ResourceIr::Object(structure, entries) => match structure {
            Structure::Composite(property) => {
                if property@ == "Tag"@ {
                    lemma_tag_entries_balanced(entries@, class);
                    lemma_balanced_wrap(crate::emit::tag_layout(), tag_entries(entries@, class));
                } else {
                    lemma_property_entries_balanced(entries@, class);
                    lemma_balanced_wrap(
                        crate::emit::property_layout(class.unwrap(), property@),
                        property_entries(entries@, class),
                    );
                }
            },
            Structure::Simple(_) => {
                lemma_balanced_text("Map.of("@);
                lemma_map_entries_balanced(entries@, class);
                lemma_balanced_text(")"@);
                lemma_balanced_empty();
                lemma_balanced_concat(seq![Piece::Text("Map.of("@)], map_entries(entries@, class));
                lemma_balanced_concat(
                    seq![Piece::Text("Map.of("@)] + map_entries(entries@, class),
                    crate::emit::close_paren(entries@.len()),
                );
            },
        },
        ResourceIr::Base64(inner) => match *inner {
            ResourceIr::String(b64) => lemma_balanced_text(
                "new String(Base64.getDecoder().decode(\""@ + crate::text::spec_escape_debug(b64@) + "\"))"@,
            ),
            _ => {
                lemma_balanced_text("Fn.base64("@);
                lemma_balanced_text(")"@);
                lemma_java_balanced(*inner, class);
                lemma_balanced_concat(seq![Piece::Text("Fn.base64("@)], java_pieces(*inner, class));
                lemma_balanced_concat(
                    seq![Piece::Text("Fn.base64("@)] + java_pieces(*inner, class),
                    seq![Piece::Text(")"@)],
                );
            },
        },
        ResourceIr::Cidr(block, count, mask) => {
            let a = seq![Piece::Text("Fn.cidr("@)];
            let b = seq![Piece::Text(", "@)];
            let c = seq![Piece::Text(", "@), Piece::Text(crate::emit::mask_text(*mask)), Piece::Text(")"@)];
            lemma_balanced_text("Fn.cidr("@);
            lemma_balanced_text(", "@);
            lemma_balanced_three_texts(", "@, crate::emit::mask_text(*mask), ")"@);
            lemma_java_balanced(*block, class);
            lemma_java_balanced(*count, class);
            lemma_balanced_concat(a, java_pieces(*block, class));
            lemma_balanced_concat(a + java_pieces(*block, class), b);
            lemma_balanced_concat(a + java_pieces(*block, class) + b, java_pieces(*count, class));
            lemma_balanced_concat(a + java_pieces(*block, class) + b + java_pieces(*count, class), c);
        },
        ResourceIr::GetAZs(region) => {
            lemma_balanced_text("Fn.getAzs("@);
            lemma_balanced_text(")"@);
            lemma_java_balanced(*region, None);
            lemma_balanced_concat(seq![Piece::Text("Fn.getAzs("@)], java_pieces(*region, None));
            lemma_balanced_concat(
                seq![Piece::Text("Fn.getAzs("@)] + java_pieces(*region, None),
                seq![Piece::Text(")"@)],
            );
        },
        ResourceIr::If(cond, t, f) => {
            let a = seq![Piece::Text(crate::text::spec_camel_case(cond@) + " ? "@)];
            let b = seq![Piece::Text("\n"@ + crate::expr::ind2() + ": "@)];
            lemma_balanced_text(crate::text::spec_camel_case(cond@) + " ? "@);
            lemma_balanced_text("\n"@ + crate::expr::ind2() + ": "@);
            lemma_java_balanced(*t, class);
            lemma_java_balanced(*f, class);
            lemma_balanced_concat(a, java_pieces(*t, class));
            lemma_balanced_concat(a + java_pieces(*t, class), b);
            lemma_balanced_concat(a + java_pieces(*t, class) + b, java_pieces(*f, class));
        },
        ResourceIr::ImportValue(t) => lemma_balanced_text("Fn.importValue(\""@ + t@ + "\")"@),
        ResourceIr::Join(sep, list) => {
            lemma_separated_balanced(list@, class, ",\n"@);
            lemma_balanced_wrap(crate::emit::join_layout(sep@), separated(list@, class, ",\n"@));
        },
        ResourceIr::FindInMap(name, t, k) => {
            let a = seq![Piece::Text(crate::text::spec_camel_case(name@) + ".findInMap("@)];
            let b = seq![Piece::Text(", "@)];
            let c = seq![Piece::Text(")"@)];
            lemma_balanced_text(crate::text::spec_camel_case(name@) + ".findInMap("@);
            lemma_balanced_text(", "@);
            lemma_balanced_text(")"@);
            lemma_java_balanced(*t, class);
            lemma_java_balanced(*k, class);
            lemma_balanced_concat(a, java_pieces(*t, class));
            lemma_balanced_concat(a + java_pieces(*t, class), b);
            lemma_balanced_concat(a + java_pieces(*t, class) + b, java_pieces(*k, class));
            lemma_balanced_concat(a + java_pieces(*t, class) + b + java_pieces(*k, class), c);
        },
        ResourceIr::Select(idx, list) => match *list {
            ResourceIr::Array(_, arr) => {
                if idx < arr@.len() {
                    assert(decreases_to!(ir => arr@[idx as int]));
                    lemma_java_balanced(arr@[idx as int], class);
                } else {
                    lemma_balanced_text("null"@);
                }
            },
            _ => {
                let a = seq![Piece::Text("Fn.select("@ + crate::text::nat_text(idx as nat) + ", "@)];
                lemma_balanced_text("Fn.select("@ + crate::text::nat_text(idx as nat) + ", "@);
                lemma_balanced_text(")"@);
                lemma_java_balanced(*list, class);
                lemma_balanced_concat(a, java_pieces(*list, class));
                lemma_balanced_concat(a + java_pieces(*list, class), seq![Piece::Text(")"@)]);
            },
        },
        ResourceIr::Split(sep, r) => match *r {
            ResourceIr::String(st) => lemma_balanced_text(st@ + ".split(\""@ + sep@ + "\")"@),
            _ => {
                let a = seq![Piece::Text("Fn.split("@ + sep@ + ", "@)];
                lemma_balanced_text("Fn.split("@ + sep@ + ", "@);
                lemma_balanced_text(")"@);
                lemma_java_balanced(*r, class);
                lemma_balanced_concat(a, java_pieces(*r, class));
                lemma_balanced_concat(a + java_pieces(*r, class), seq![Piece::Text(")"@)]);
            },
        },
        ResourceIr::Sub(parts) => lemma_sub_parts_balanced(parts@, class),
        ResourceIr::Ref(r) => lemma_balanced_text(crate::expr::reference_text(r)),
    }
}

/// Writing a resource value closes every block it opens, and no other: the
/// writer is left at the nesting it was found at.
pub proof fn law_values_close_their_blocks(ir: ResourceIr, class: Option<Seq<char>>)
    ensures
        balanced(java_pieces(ir, class)),
        forall|before: Seq<Piece>| #[trigger] net_depth(before + java_pieces(ir, class)) == net_depth(before),
{
    lemma_java_balanced(ir, class);
    assert forall|before: Seq<Piece>| #[trigger] net_depth(before + java_pieces(ir, class)) == net_depth(before) by {
        lemma_depth_concat(before, java_pieces(ir, class));
    }
}

// ---------------------------------------------------------------------------
// Names
// ---------------------------------------------------------------------------

proof fn lemma_filter_all(s: Seq<char>)
    requires
        forall|i: int| 0 <= i < s.len() ==> spec_is_alphanumeric(#[trigger] s[i]),
    ensures
        alphanumeric_only(s) == s,
    decreases s.len(),
{
    reveal(Seq::filter);
    if s.len() > 0 {
        let t = s.drop_last();
        assert forall|i: int| 0 <= i < t.len() implies spec_is_alphanumeric(#[trigger] t[i]) by {
            assert(t[i] == s[i]);
        }
        lemma_filter_all(t);
        assert(spec_is_alphanumeric(s[s.len() - 1]));
        assert(s =~= t.push(s.last()));
    }
}

/// Reducing a text to its alphanumeric characters a second time changes
/// nothing.
pub proof fn law_alphanumeric_idempotent(s: Seq<char>)
    ensures
        alphanumeric_only(alphanumeric_only(s)) == alphanumeric_only(s),
{
    let f = alphanumeric_only(s);
    assert forall|i: int| 0 <= i < f.len() implies spec_is_alphanumeric(#[trigger] f[i]) by {
        s.lemma_filter_pred(|c: char| spec_is_alphanumeric(c), i);
    }
    lemma_filter_all(f);
}

/// A resource declared without a condition is declared under the variable
/// that its attribute statements use, whenever its camel-case name is made
/// of alphanumeric characters only.
pub proof fn law_declaration_matches_attributes(resource_name: Seq<char>)
    requires
        forall|i: int|
            0 <= i < spec_camel_case(resource_name).len() ==> spec_is_alphanumeric(
                #[trigger] spec_camel_case(resource_name)[i],
            ),
    ensures
        name_text(resource_name) == attribute_target(resource_name, false),
{
    lemma_filter_all(spec_camel_case(resource_name));
}

// ---------------------------------------------------------------------------
// Imports and files
// ---------------------------------------------------------------------------

/// A property object of any type but `Tag` can be written only with a
/// resource class at hand, and is then written as the property builder of
/// that class: `Cfn{class}.{type}Property.builder()`.
pub proof fn law_property_objects_need_a_class(
    property: String,
    entries: Vec<(String, ResourceIr)>,
    class: Option<Seq<char>>,
)
    requires
        property@ != "Tag"@,
    ensures
        crate::emit::java_ok(ResourceIr::Object(Structure::Composite(property), entries), class is Some) ==> class is Some,
        class is Some ==> java_pieces(ResourceIr::Object(Structure::Composite(property), entries), class)[0]
            == Piece::Open(crate::emit::property_layout(class->0, property@)),
{
}

/// A resource with no metadata, dependencies, removal policy or update
/// policy can always have its attribute statements written, and they are
/// nothing at all, under a condition or not.
pub proof fn law_no_attributes_write_nothing(r: ResourceInstruction, maybe_undefined: bool)
    requires
        r.metadata is None,
        r.dependencies@.len() == 0,
        r.deletion_policy is None,
        r.update_policy is None,
    ensures
        crate::java::attributes_ok(r),
        attribute_pieces(r, maybe_undefined) == Seq::<Piece>::empty(),
{
    let target = attribute_target(r.name@, maybe_undefined);
    let trailer = attribute_trailer(maybe_undefined);
    assert(r.dependencies@ =~= Seq::<String>::empty());
    assert(dependency_pieces(r.dependencies@, target, trailer) =~= Seq::<Piece>::empty());
    assert(attribute_pieces(r, maybe_undefined) =~= Seq::<Piece>::empty());
}

/// An import whose path has a single part names no module, and gives no
/// import statement.
pub proof fn law_single_part_import_is_empty(imp: ImportInstruction)
    requires
        imp.path@.len() == 1,
    ensures
        import_text(imp) == Seq::<char>::empty(),
{
    let parts = crate::java::import_parts(imp.path@);
    assert(parts.take(0) =~= Seq::<Seq<char>>::empty());
}

/// Every synthesized file begins with its package declaration on a line of
/// its own.
pub proof fn law_file_starts_with_package(package: Seq<char>, ir: CloudformationProgramIr, stack: Seq<char>)
    requires
        no_break(package),
    ensures
        ("package "@ + package + ";"@ + seq!['\n']).is_prefix_of(rendered(synthesis_pieces(package, ir, stack))),
{
    reveal_strlit("package ");
    reveal_strlit(";");
    reveal_strlit("\n");
    let first = "package "@ + package + ";"@;
    assert(no_break(first)) by {
        assert forall|i: int| 0 <= i < first.len() implies first[i] != '\n' by {
            if i < 8 {
                assert(first[i] == "package "@[i]);
            } else if i < 8 + package.len() {
                assert(first[i] == package[i - 8]);
            } else {
                assert(first[i] == ';');
            }
        }
    }
    let ps = line_of(first);
    let rest = synthesis_pieces(package, ir, stack).skip(2);
    assert(synthesis_pieces(package, ir, stack) =~= ps + rest);
    law_rendering_appends(ps, rest);
    let c0 = start();
    law_indented_text(c0, first);
    assert(indent_prefix(c0.frames) =~= Seq::<char>::empty());
    let c1 = put_text(c0, first);
    assert(nl().drop_last() =~= Seq::<char>::empty());
    assert(nl().last() == '\n');
    assert(put_text(c1, nl().drop_last()) == c1);
    let c2 = put_char(c1, '\n');
    assert(c2.out =~= first + seq!['\n']);
    let p1 = seq![Piece::Text(first)];
    assert(p1.drop_last() =~= Seq::<Piece>::empty());
    assert(run(c0, p1.drop_last()) == c0);
    assert(p1.last() == Piece::Text(first));
    assert(run(c0, p1) == c1);
    assert(ps.drop_last() =~= p1);
    assert(ps.last() == Piece::Text(nl()));
    assert(run(c0, ps) == c2);
}

// ---------------------------------------------------------------------------
// The blocks of a whole file
// ---------------------------------------------------------------------------

/// Pieces that are all text.
pub open spec fn texts_only(ps: Seq<Piece>) -> bool {
    forall|i: int| 0 <= i < ps.len() ==> #[trigger] ps[i] is Text
}

pub(crate) proof fn lemma_texts_balanced(ps: Seq<Piece>)
    requires
        texts_only(ps),
    ensures
        balanced(ps),
        net_depth(ps) == 0,
        low_depth(ps) == 0,
    decreases ps.len(),
{
    if ps.len() > 0 {
        let t = ps.drop_last();
        assert(texts_only(t)) by {
            assert forall|i: int| 0 <= i < t.len() implies #[trigger] t[i] is Text by {
                assert(t[i] == ps[i]);
            }
        }
        lemma_texts_balanced(t);
        assert(ps[ps.len() - 1] is Text);
    }
}

/// Depth facts of pieces that never close more than they opened.
pub open spec fn never_below(ps: Seq<Piece>) -> bool {
    net_depth(ps) >= 0 && low_depth(ps) >= 0
}

proof fn lemma_never_below_concat(a: Seq<Piece>, b: Seq<Piece>)
    requires
        never_below(a),
        never_below(b),
    ensures
        never_below(a + b),
        net_depth(a + b) == net_depth(a) + net_depth(b),
{
    lemma_depth_concat(a, b);
}

proof fn lemma_open_balanced(l: Layout, m: Seq<Piece>)
    requires
        balanced(m),
    ensures
        never_below(seq![Piece::Open(l)] + m),
        net_depth(seq![Piece::Open(l)] + m) == 1,
{
    let o = seq![Piece::Open(l)];
    assert(o.drop_last() =~= Seq::<Piece>::empty());
    assert(o.last() == Piece::Open(l));
    assert(net_depth(o.drop_last()) == 0 && low_depth(o.drop_last()) == 0);
    lemma_depth_concat(o, m);
}

proof fn lemma_line_balanced(t: Seq<char>)
    ensures
        balanced(line_of(t)),
{
    lemma_balanced_texts(t, nl());
}

proof fn lemma_mapping_inner_rows_texts(name: Seq<char>, key1: Seq<char>, s: Seq<(String, MappingInnerValue)>)
    ensures
        texts_only(mapping_inner_rows(name, key1, s)),
    decreases s.len(),
{
    if s.len() > 0 {
        lemma_mapping_inner_rows_texts(name, key1, s.drop_last());
    }
}

proof fn lemma_mapping_rows_texts(name: Seq<char>, s: Seq<(String, Vec<(String, MappingInnerValue)>)>)
    ensures
        texts_only(mapping_rows(name, s)),
    decreases s.len(),
{
    if s.len() > 0 {
        lemma_mapping_rows_texts(name, s.drop_last());
        lemma_mapping_inner_rows_texts(name, s.last().0@, s.last().1@);
    }
}

pub(crate) proof fn lemma_mappings_texts(s: Seq<crate::ir::MappingInstruction>)
    ensures
        texts_only(mappings_pieces(s)),
    decreases s.len(),
{
    if s.len() > 0 {
        lemma_mappings_texts(s.drop_last());
        let m = s.last();
        lemma_mapping_rows_texts(crate::text::spec_camel_case(m.name@), m.map@);
    }
}

proof fn lemma_imports_texts(s: Seq<ImportInstruction>)
    ensures
        texts_only(import_lines(s)),
    decreases s.len(),
{
    if s.len() > 0 {
        lemma_imports_texts(s.drop_last());
    }
}

proof fn lemma_conditions_texts(s: Seq<ConditionInstruction>)
    ensures
        texts_only(condition_lines(s)),
    decreases s.len(),
{
    if s.len() > 0 {
        lemma_conditions_texts(s.drop_last());
    }
}

proof fn lemma_output_field_lines_texts(s: Seq<OutputInstruction>)
    ensures
        texts_only(output_field_lines(s)),
    decreases s.len(),
{
    if s.len() > 0 {
        lemma_output_field_lines_texts(s.drop_last());
    }
}

proof fn lemma_dependencies_texts(s: Seq<String>, target: Seq<char>, trailer: Seq<char>)
    ensures
        texts_only(dependency_pieces(s, target, trailer)),
    decreases s.len(),
{
    if s.len() > 0 {
        lemma_dependencies_texts(s.drop_last(), target, trailer);
    }
}

proof fn lemma_output_getters_balanced(s: Seq<OutputInstruction>)
    ensures
        balanced(output_getters(s)),
    decreases s.len(),
{
    if s.len() > 0 {
        let o = s.last();
        lemma_output_getters_balanced(s.drop_last());
        let l = Layout {
            indent: crate::expr::ind1(),
            leading: Some(
                "public "@ + crate::java::field_type_text(o.condition is Some) + " get"@
                    + crate::text::spec_pascal_case(o.name@) + "() {"@,
            ),
            trailing: Some("}\n"@),
            trailing_newline: true,
        };
        let body = line_of("return this."@ + crate::text::spec_camel_case(o.name@) + ";"@);
        lemma_line_balanced("return this."@ + crate::text::spec_camel_case(o.name@) + ";"@);
        lemma_balanced_wrap(l, body);
        lemma_balanced_concat(output_getters(s.drop_last()), seq![Piece::Open(l)] + body + seq![Piece::Close]);
        assert(output_getters(s) =~= output_getters(s.drop_last()) + (seq![Piece::Open(l)] + body + seq![
            Piece::Close,
        ]));
    }
}

proof fn lemma_param_lines_balanced(s: Seq<ParamModel>, total: nat)
    ensures
        balanced(param_lines(s, total)),
    decreases s.len(),
{
    if s.len() > 0 {
        let p = s.last();
        let end = if s.len() == total {
            ") {"@
        } else {
            ","@
        };
        let body = line_of(p.java_type + " "@ + p.name + end);
        lemma_param_lines_balanced(s.drop_last(), total);
        lemma_line_balanced(p.java_type + " "@ + p.name + end);
        lemma_balanced_wrap(crate::code::plain_layout(crate::expr::ind1()), body);
        lemma_balanced_concat(
            param_lines(s.drop_last(), total),
            seq![Piece::Open(crate::code::plain_layout(crate::expr::ind1()))] + body + seq![Piece::Close],
        );
        assert(param_lines(s, total) =~= param_lines(s.drop_last(), total) + (seq![
            Piece::Open(crate::code::plain_layout(crate::expr::ind1())),
        ] + body + seq![Piece::Close]));
    }
}

proof fn lemma_stack_definitions_depth(props: Seq<ParamModel>, stack: Seq<char>)
    ensures
        never_below(stack_definition_pieces(props, stack)),
        net_depth(stack_definition_pieces(props, stack)) == 1,
{
    let short = seq![Piece::Open(ctor_layout(short_ctor(stack)))] + line_of("super(scope, id, null);"@) + seq![
        Piece::Close,
    ];
    lemma_line_balanced("super(scope, id, null);"@);
    lemma_balanced_wrap(ctor_layout(short_ctor(stack)), line_of("super(scope, id, null);"@));
    lemma_balanced_text(nl());
    lemma_balanced_concat(short, seq![Piece::Text(nl())]);
    let first = short + seq![Piece::Text(nl())];
    if props.len() == 0 {
        let rest = seq![Piece::Open(ctor_layout(props_ctor(stack)))] + line_of("super(scope, id, props);"@);
        lemma_line_balanced("super(scope, id, props);"@);
        lemma_open_balanced(ctor_layout(props_ctor(stack)), line_of("super(scope, id, props);"@));
        lemma_never_below_concat(first, rest);
        assert(stack_definition_pieces(props, stack) =~= first + rest);
    } else {
        let this_line = line_of(
            "this(scope, id, props"@ + crate::text::repeat_text(", null"@, props.len()) + ");"@,
        );
        let with_props = seq![Piece::Open(ctor_layout(props_ctor(stack)))] + this_line + seq![Piece::Close];
        lemma_line_balanced("this(scope, id, props"@ + crate::text::repeat_text(", null"@, props.len()) + ");"@);
        lemma_balanced_wrap(ctor_layout(props_ctor(stack)), this_line);
        let body = param_lines(props, props.len()) + line_of("super(scope, id, props);"@) + seq![Piece::Text(nl())];
        lemma_param_lines_balanced(props, props.len());
        lemma_line_balanced("super(scope, id, props);"@);
        lemma_balanced_concat(param_lines(props, props.len()), line_of("super(scope, id, props);"@));
        lemma_balanced_concat(
            param_lines(props, props.len()) + line_of("super(scope, id, props);"@),
            seq![Piece::Text(nl())],
        );
        let full = seq![Piece::Open(ctor_layout(full_ctor(stack)))] + body;
        lemma_open_balanced(ctor_layout(full_ctor(stack)), body);
        lemma_balanced_concat(first, with_props);
        lemma_balanced_concat(first + with_props, seq![Piece::Text(nl())]);
        lemma_never_below_concat(first + with_props + seq![Piece::Text(nl())], full);
        assert(stack_definition_pieces(props, stack) =~= first + with_props + seq![Piece::Text(nl())] + full);
    }
}

proof fn lemma_prop_balanced(p: ParamModel)
    ensures
        balanced(prop_pieces(p)),
{
    match p.default_value {
        None => lemma_balanced_text(nl()),
        Some(v) => if crate::text::seq_contains(p.constructor_type, "AWS::"@) {
            let value_as = if crate::text::seq_contains(p.constructor_type, "List"@) {
                "getValueAsList"@
            } else {
                "getValueAsString"@
            };
            let l1 = Layout {
                indent: crate::expr::ind2(),
                leading: Some(p.name + " = Optional.ofNullable("@ + p.name + ").isPresent()"@),
                trailing: None,
                trailing_newline: true,
            };
            let l2 = Layout {
                indent: crate::expr::ind2(),
                leading: Some(": CfnParameter.Builder.create(this, \""@ + crate::text::spec_pascal_case(p.name) + "\")"@),
                trailing: None,
                trailing_newline: false,
            };
            let a = line_of(".type(\""@ + p.constructor_type + "\")"@);
            let b = line_of(".defaultValue(\""@ + v + "\")"@);
            let c = line_of(".build()"@);
            let d = line_of("."@ + value_as + "();"@);
            let q = line_of("? "@ + p.name);
            let inner = a + b + c + d;
            assert(texts_only(inner));
            lemma_texts_balanced(inner);
            lemma_balanced_wrap(l2, inner);
            let w2 = seq![Piece::Open(l2)] + inner + seq![Piece::Close];
            lemma_line_balanced("? "@ + p.name);
            lemma_balanced_concat(q, w2);
            lemma_balanced_wrap(l1, q + w2);
            assert(prop_pieces(p) =~= seq![Piece::Open(l1)] + (q + w2) + seq![Piece::Close]);
        } else {
            lemma_line_balanced(
                p.name + " = Optional.ofNullable("@ + p.name + ").isPresent() ? "@ + p.name + "\n"@ + crate::expr::ind2()
                    + ": \""@ + v + "\";"@,
            );
        },
    }
}

proof fn lemma_props_balanced(s: Seq<ParamModel>)
    ensures
        balanced(props_pieces(s)),
    decreases s.len(),
{
    if s.len() > 0 {
        lemma_props_balanced(s.drop_last());
        lemma_prop_balanced(s.last());
        lemma_balanced_concat(props_pieces(s.drop_last()), prop_pieces(s.last()));
    }
}

proof fn lemma_resource_balanced(r: ResourceInstruction)
    ensures
        balanced(resource_pieces(r)),
{
    let class = r.resource_type.name@;
    let props = property_entries(r.properties@, Some(class));
    lemma_property_entries_balanced(r.properties@, Some(class));
    let plain = crate::code::plain_layout(crate::expr::ind2());
    match r.condition {
        Some(cond) => {
            let head = "Optional<Cfn"@ + class + "> "@ + name_text(r.name@) + " = "@ + spec_camel_case(cond@)
                + " ? Optional.of(Cfn"@ + class + ".Builder.create(this, \""@ + r.name@ + "\")"@;
            let tail = line_of(".build()) : Optional.empty();"@);
            lemma_line_balanced(head);
            lemma_line_balanced(".build()) : Optional.empty();"@);
            lemma_balanced_concat(props, tail);
            lemma_balanced_wrap(plain, props + tail);
            lemma_balanced_concat(line_of(head), seq![Piece::Open(plain)] + (props + tail) + seq![Piece::Close]);
            assert(resource_pieces(r) =~= line_of(head) + (seq![Piece::Open(plain)] + (props + tail) + seq![
                Piece::Close,
            ]));
        },
        None => {
            let head = "Cfn"@ + class + " "@ + name_text(r.name@) + " = Cfn"@ + class + ".Builder.create(this, \""@
                + r.name@ + "\")"@;
            let tail = line_of(".build();"@);
            lemma_line_balanced(head);
            lemma_line_balanced(".build();"@);
            lemma_balanced_concat(props, tail);
            lemma_balanced_wrap(plain, props + tail);
            lemma_balanced_concat(line_of(head), seq![Piece::Open(plain)] + (props + tail) + seq![Piece::Close]);
            assert(resource_pieces(r) =~= line_of(head) + (seq![Piece::Open(plain)] + (props + tail) + seq![
                Piece::Close,
            ]));
        },
    }
}

proof fn lemma_metadata_entries_balanced(s: Seq<(String, ResourceIr)>, target: Seq<char>, trailer: Seq<char>)
    ensures
        balanced(metadata_entries(s, target, trailer)),
    decreases s.len(),
{
    if s.len() > 0 {
        let a = seq![Piece::Text(target + ".addMetadata(\""@ + s.last().0@ + "\", "@)];
        let c = seq![Piece::Text(")"@ + trailer)];
        lemma_metadata_entries_balanced(s.drop_last(), target, trailer);
        lemma_balanced_text(target + ".addMetadata(\""@ + s.last().0@ + "\", "@);
        lemma_balanced_text(")"@ + trailer);
        lemma_java_balanced(s.last().1, None);
        let m = metadata_entries(s.drop_last(), target, trailer);
        lemma_balanced_concat(m, a);
        lemma_balanced_concat(m + a, java_pieces(s.last().1, None));
        lemma_balanced_concat(m + a + java_pieces(s.last().1, None), c);
    }
}

proof fn lemma_attributes_balanced(r: ResourceInstruction, maybe_undefined: bool)
    ensures
        balanced(attribute_pieces(r, maybe_undefined)),
{
    let target = attribute_target(r.name@, maybe_undefined);
    let trailer = attribute_trailer(maybe_undefined);
    let m = metadata_pieces(r.metadata, target, trailer);
    match r.metadata {
        Some(v) => match v {
            ResourceIr::Object(_, entries) => lemma_metadata_entries_balanced(entries@, target, trailer),
            _ => lemma_line_balanced("/* "@ + crate::debug::ir_debug(v) + " */"@),
        },
        None => lemma_balanced_empty(),
    }
    let d = dependency_pieces(r.dependencies@, target, trailer);
    lemma_dependencies_texts(r.dependencies@, target, trailer);
    lemma_texts_balanced(d);
    let del = match r.deletion_policy {
        Some(dp) => seq![Piece::Text(target + ".applyRemovalPolicy(RemovalPolicy."@ + dp@ + ")"@ + trailer)],
        None => Seq::empty(),
    };
    match r.deletion_policy {
        Some(dp) => lemma_balanced_text(target + ".applyRemovalPolicy(RemovalPolicy."@ + dp@ + ")"@ + trailer),
        None => lemma_balanced_empty(),
    }
    let up = match r.update_policy {
        Some(u) => seq![Piece::Text(target + ".getCfnOptions().setUpdatePolicy("@)] + java_pieces(u, None) + seq![
            Piece::Text(")"@ + trailer),
        ],
        None => Seq::empty(),
    };
    match r.update_policy {
        Some(u) => {
            lemma_balanced_text(target + ".getCfnOptions().setUpdatePolicy("@);
            lemma_balanced_text(")"@ + trailer);
            lemma_java_balanced(u, None);
            lemma_balanced_concat(seq![Piece::Text(target + ".getCfnOptions().setUpdatePolicy("@)], java_pieces(u, None));
            lemma_balanced_concat(
                seq![Piece::Text(target + ".getCfnOptions().setUpdatePolicy("@)] + java_pieces(u, None),
                seq![Piece::Text(")"@ + trailer)],
            );
        },
        None => lemma_balanced_empty(),
    }
    lemma_balanced_concat(del, up);
    assert(policy_pieces(r, target, trailer) == del + up);
    let extra = if r.metadata is Some || r.dependencies@.len() > 0 || r.deletion_policy is Some || r.update_policy is Some {
        seq![Piece::Text(nl())]
    } else {
        Seq::empty()
    };
    lemma_balanced_text(nl());
    lemma_balanced_concat(m, d);
    lemma_balanced_concat(m + d, del + up);
    lemma_balanced_concat(m + d + (del + up), extra);
}

pub(crate) proof fn lemma_resources_balanced(s: Seq<ResourceInstruction>)
    ensures
        balanced(resources_pieces(s)),
    decreases s.len(),
{
    if s.len() > 0 {
        let r = s.last();
        lemma_resources_balanced(s.drop_last());
        lemma_resource_balanced(r);
        lemma_balanced_text(nl());
        lemma_attributes_balanced(r, r.condition is Some);
        let a = resources_pieces(s.drop_last());
        lemma_balanced_concat(a, resource_pieces(r));
        lemma_balanced_concat(a + resource_pieces(r), seq![Piece::Text(nl())]);
        lemma_balanced_concat(a + resource_pieces(r) + seq![Piece::Text(nl())], attribute_pieces(r, r.condition is Some));
    }
}

#[verifier::rlimit(40)]
#[verifier::spinoff_prover]
proof fn lemma_output_balanced(o: OutputInstruction)
    ensures
        balanced(output_pieces(o)),
{
    let var = spec_camel_case(o.name@);
    let v = java_pieces(o.value, None);
    lemma_java_balanced(o.value, None);
    let desc = match o.description {
        Some(d) => line_of(".description(\""@ + d@ + "\")"@),
        None => Seq::empty(),
    };
    match o.description {
        Some(d) => lemma_line_balanced(".description(\""@ + d@ + "\")"@),
        None => lemma_balanced_empty(),
    }
    let exp = match o.export {
        Some(e) => seq![Piece::Text(".exportName("@)] + java_pieces(e, None) + seq![Piece::Text(")\n"@)],
        None => Seq::empty(),
    };
    match o.export {
        Some(e) => {
            lemma_balanced_text(".exportName("@);
            lemma_balanced_text(")\n"@);
            lemma_java_balanced(e, None);
            lemma_balanced_concat(seq![Piece::Text(".exportName("@)], java_pieces(e, None));
            lemma_balanced_concat(seq![Piece::Text(".exportName("@)] + java_pieces(e, None), seq![Piece::Text(")\n"@)]);
        },
        None => lemma_balanced_empty(),
    }
    lemma_balanced_text(nl());
    match o.condition {
        None => {
            let l = Layout {
                indent: crate::expr::ind2(),
                leading: Some("CfnOutput.Builder.create(this, \""@ + o.name@ + "\")"@),
                trailing: Some(crate::expr::ind2() + ".build();"@),
                trailing_newline: true,
            };
            let a = seq![Piece::Text("this."@ + var + " = "@)];
            let b = seq![Piece::Text(";\n"@)];
            let body = line_of(".value(this."@ + var + ".toString())"@) + desc + exp;
            lemma_balanced_text("this."@ + var + " = "@);
            lemma_balanced_text(";\n"@);
            lemma_line_balanced(".value(this."@ + var + ".toString())"@);
            lemma_balanced_concat(line_of(".value(this."@ + var + ".toString())"@), desc);
            lemma_balanced_concat(line_of(".value(this."@ + var + ".toString())"@) + desc, exp);
            lemma_balanced_wrap(l, body);
            lemma_balanced_concat(a, v);
            lemma_balanced_concat(a + v, b);
            let w = seq![Piece::Open(l)] + body + seq![Piece::Close];
            lemma_balanced_concat(a + v + b, w);
            lemma_balanced_concat(a + v + b + w, seq![Piece::Text(nl())]);
            assert(output_pieces(o) =~= a + v + b + w + seq![Piece::Text(nl())]);
        },
        Some(cond) => {
            let l = Layout {
                indent: crate::expr::ind2(),
                leading: Some(
                    "this."@ + var + ".ifPresent(_"@ + var + " -> CfnOutput.Builder.create(this, \""@ + o.name@ + "\")"@,
                ),
                trailing: Some(crate::expr::ind2() + ".build());"@),
                trailing_newline: true,
            };
            let a = seq![Piece::Text("this."@ + var + " = "@ + spec_camel_case(cond@) + " ? "@)];
            let b = seq![Piece::Text(" : Optional.empty();\n"@)];
            let body = line_of(".value(_"@ + var + ".toString())"@) + desc + exp;
            lemma_balanced_text("this."@ + var + " = "@ + spec_camel_case(cond@) + " ? "@);
            lemma_balanced_text(" : Optional.empty();\n"@);
            lemma_line_balanced(".value(_"@ + var + ".toString())"@);
            lemma_balanced_concat(line_of(".value(_"@ + var + ".toString())"@), desc);
            lemma_balanced_concat(line_of(".value(_"@ + var + ".toString())"@) + desc, exp);
            lemma_balanced_wrap(l, body);
            lemma_balanced_concat(a, v);
            lemma_balanced_concat(a + v, b);
            let w = seq![Piece::Open(l)] + body + seq![Piece::Close];
            lemma_balanced_concat(a + v + b, w);
            lemma_balanced_concat(a + v + b + w, seq![Piece::Text(nl())]);
            assert(output_pieces(o) =~= a + v + b + w + seq![Piece::Text(nl())]);
        },
    }
}

pub(crate) proof fn lemma_outputs_balanced(s: Seq<OutputInstruction>)
    ensures
        balanced(outputs_pieces(s)),
    decreases s.len(),
{
    if s.len() > 0 {
        lemma_outputs_balanced(s.drop_last());
        lemma_output_balanced(s.last());
        lemma_balanced_concat(outputs_pieces(s.drop_last()), output_pieces(s.last()));
    }
}

/// The pieces of a file before its class.
pub open spec fn file_head(package: Seq<char>, ir: CloudformationProgramIr) -> Seq<Piece> {
    header_pieces(package) + import_lines(ir.imports@) + seq![Piece::Text(nl())]
}

/// The pieces of a file's last constructor body.
pub open spec fn file_body(ir: CloudformationProgramIr) -> Seq<Piece> {
    props_pieces(crate::java::params_of(ir)) + write_mappings_pieces(ir) + condition_lines(ir.conditions@) + seq![
        Piece::Text(nl()),
    ] + resources_pieces(ir.resources@) + outputs_pieces(ir.outputs@)
}

proof fn lemma_file_head_balanced(package: Seq<char>, ir: CloudformationProgramIr)
    ensures
        balanced(file_head(package, ir)),
{
    let h = header_pieces(package);
    assert(texts_only(h));
    lemma_texts_balanced(h);
    lemma_imports_texts(ir.imports@);
    lemma_texts_balanced(import_lines(ir.imports@));
    lemma_balanced_text(nl());
    lemma_balanced_concat(h, import_lines(ir.imports@));
    lemma_balanced_concat(h + import_lines(ir.imports@), seq![Piece::Text(nl())]);
}

proof fn lemma_file_body_balanced(ir: CloudformationProgramIr)
    ensures
        balanced(file_body(ir)),
{
    let props = props_pieces(crate::java::params_of(ir));
    lemma_props_balanced(crate::java::params_of(ir));
    let maps = write_mappings_pieces(ir);
    lemma_mappings_texts(ir.mappings@);
    if ir.mappings@.len() == 0 {
        lemma_balanced_empty();
    } else {
        lemma_texts_balanced(mappings_pieces(ir.mappings@));
        lemma_line_balanced("// Mappings"@);
        lemma_balanced_concat(line_of("// Mappings"@), mappings_pieces(ir.mappings@));
    }
    let conds = condition_lines(ir.conditions@);
    lemma_conditions_texts(ir.conditions@);
    lemma_texts_balanced(conds);
    lemma_balanced_text(nl());
    lemma_resources_balanced(ir.resources@);
    lemma_outputs_balanced(ir.outputs@);
    lemma_balanced_concat(props, maps);
    lemma_balanced_concat(props + maps, conds);
    lemma_balanced_concat(props + maps + conds, seq![Piece::Text(nl())]);
    lemma_balanced_concat(props + maps + conds + seq![Piece::Text(nl())], resources_pieces(ir.resources@));
    lemma_balanced_concat(
        props + maps + conds + seq![Piece::Text(nl())] + resources_pieces(ir.resources@),
        outputs_pieces(ir.outputs@),
    );
}

/// A synthesized file never closes a block it did not open, and leaves
/// exactly two blocks for rendering to close: the stack class and the body
/// of its last constructor.
pub proof fn law_file_leaves_class_and_constructor_open(
    package: Seq<char>,
    ir: CloudformationProgramIr,
    stack: Seq<char>,
)
    ensures
        low_depth(synthesis_pieces(package, ir, stack)) >= 0,
        net_depth(synthesis_pieces(package, ir, stack)) == 2,
{
    let head = file_head(package, ir);
    lemma_file_head_balanced(package, ir);
    lemma_output_field_lines_texts(ir.outputs@);
    lemma_texts_balanced(output_field_lines(ir.outputs@));
    lemma_output_getters_balanced(ir.outputs@);
    lemma_balanced_concat(output_field_lines(ir.outputs@), output_getters(ir.outputs@));
    let fields = output_field_pieces(ir.outputs@);
    let class = seq![Piece::Open(crate::java::class_layout(stack))] + fields;
    lemma_open_balanced(crate::java::class_layout(stack), fields);
    let defs = stack_definition_pieces(crate::java::params_of(ir), stack);
    lemma_stack_definitions_depth(crate::java::params_of(ir), stack);
    let body = file_body(ir);
    lemma_file_body_balanced(ir);
    lemma_never_below_concat(head, class);
    lemma_never_below_concat(head + class, defs);
    lemma_never_below_concat(head + class + defs, body);
    assert(synthesis_pieces(package, ir, stack) =~= head + class + defs + body);
}

/// While no more blocks are closed than opened, the renderer's open blocks
/// are exactly those the pieces opened and did not close.
pub proof fn law_depth_is_open_blocks(ps: Seq<Piece>)
    requires
        low_depth(ps) >= 0,
    ensures
        run(start(), ps).frames.len() == net_depth(ps),
    decreases ps.len(),
{
    if ps.len() > 0 {
        let t = ps.drop_last();
        assert(low_depth(t) >= low_depth(ps));
        law_depth_is_open_blocks(t);
        let cur = run(start(), t);
        match ps.last() {
            Piece::Text(s) => crate::code::lemma_put_text_frames(cur, s),
            Piece::Open(l) => {
                match l.leading {
                    Some(x) => crate::code::lemma_put_text_frames(cur, x),
                    None => {},
                }
            },
            Piece::Close => {
                assert(net_depth(ps) >= low_depth(ps));
                crate::code::lemma_close_block_frames(cur);
            },
        }
    }
}

} // verus!
