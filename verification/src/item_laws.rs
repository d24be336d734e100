//! What each list the synthesizer writes holds, item by item: the k-th
//! item written comes from the k-th input item, in the inputs' order, and
//! separators stand between every two neighbours.
use vstd::prelude::*;
use crate::code::Piece;
use crate::debug::{entries_debug, ir_debug, list_debug};
use crate::emit::{java_pieces, map_entries, property_entries, separated, sub_parts, tag_entries, tag_value_pieces};
use crate::expr::{condition_text, conditions_text};
use crate::ir::{
    ConditionInstruction, ConditionIr, ImportInstruction, MappingInnerValue, MappingInstruction, OutputInstruction,
    ResourceInstruction, ResourceIr,
};
use crate::java::{
    attribute_pieces, dependency_pieces, getter_pieces, import_lines,
    import_text, java_type_text, mapping_inner_rows, mapping_pieces, mapping_rows, mapping_value_text,
    mappings_pieces, metadata_entries, output_field_lines, output_getters, output_pieces, outputs_pieces,
    prop_pieces, props_pieces, resource_pieces, resources_pieces, ParamModel,
};
use crate::text::{
    alphanumeric_only, digit_char, eq_ignore_ascii_case, join_text, nat_text, repeat_text, spec_camel_case,
    spec_debug_text, spec_is_alphanumeric, spec_pascal_case, spec_to_lowercase,
};

verus! {

// ---------------------------------------------------------------------------
// Parameter types
// ---------------------------------------------------------------------------

/// The Java type of a template parameter: `List<Number>` for that type;
/// for any other type, `String[]` exactly when the type's name holds the
/// text `List` somewhere (such as `CommaDelimitedList`), and `String`
/// otherwise.
pub proof fn law_java_type(t: Seq<char>)
    ensures
        t == "List<Number>"@ ==> java_type_text(t) == "List<Number>"@,
        t != "List<Number>"@ ==> (java_type_text(t) == "String[]"@ <==> exists|i: int|
            0 <= i && i + 4 <= t.len() && #[trigger] t.subrange(i, i + 4) == "List"@),
        t != "List<Number>"@ ==> (java_type_text(t) == "String[]"@ || java_type_text(t) == "String"@),
{
    reveal_strlit("List");
    reveal_strlit("String[]");
    reveal_strlit("String");
    assert("String[]"@ != "String"@) by {
        assert("String[]"@.len() != "String"@.len());
    }
    if t != "List<Number>"@ {
        if crate::text::seq_contains(t, "List"@) {
            let i = choose|i: int|
                0 <= i && i + "List"@.len() <= t.len() && #[trigger] t.subrange(i, i + "List"@.len()) == "List"@;
            assert(t.subrange(i, i + 4) == "List"@);
        } else {
            assert forall|i: int| 0 <= i && i + 4 <= t.len() implies #[trigger] t.subrange(i, i + 4) != "List"@ by {
                if t.subrange(i, i + 4) == "List"@ {
                    assert(t.subrange(i, i + "List"@.len()) == "List"@);
                }
            }
        }
    }
}

// ---------------------------------------------------------------------------
// Mappings
// ---------------------------------------------------------------------------

/// The `setValue` rows under one top-level key: three pieces per
/// second-level entry, in order, the k-th row naming the top-level key and
/// the k-th entry's own key and value.
pub proof fn law_mapping_inner_rows(name: Seq<char>, key1: Seq<char>, s: Seq<(String, MappingInnerValue)>)
    ensures
        mapping_inner_rows(name, key1, s).len() == 3 * s.len(),
        forall|k: int|
            0 <= k < s.len() ==> mapping_inner_rows(name, key1, s)[3 * k] == Piece::Text(
                name + ".setValue(\""@ + key1 + "\", \""@ + (#[trigger] s[k]).0@ + "\", "@,
            ) && mapping_inner_rows(name, key1, s)[3 * k + 1] == Piece::Text(mapping_value_text(s[k].1))
                && mapping_inner_rows(name, key1, s)[3 * k + 2] == Piece::Text(");\n"@),
    decreases s.len(),
{
    if s.len() > 0 {
        let t = s.drop_last();
        law_mapping_inner_rows(name, key1, t);
        let r = mapping_inner_rows(name, key1, s);
        let rt = mapping_inner_rows(name, key1, t);
        assert forall|k: int| 0 <= k < s.len() implies r[3 * k] == Piece::Text(
            name + ".setValue(\""@ + key1 + "\", \""@ + (#[trigger] s[k]).0@ + "\", "@,
        ) && r[3 * k + 1] == Piece::Text(mapping_value_text(s[k].1)) && r[3 * k + 2] == Piece::Text(");\n"@) by {
            if k < t.len() {
                assert(t[k] == s[k]);
                assert(r[3 * k] == rt[3 * k]);
                assert(r[3 * k + 1] == rt[3 * k + 1]);
                assert(r[3 * k + 2] == rt[3 * k + 2]);
            } else {
                assert(s.last() == s[k]);
            }
        }
    }
}

/// The rows of a mapping: the rows under each top-level key, in the
/// keys' order.
pub proof fn law_mapping_rows(name: Seq<char>, s: Seq<(String, Vec<(String, MappingInnerValue)>)>)
    ensures
        mapping_rows(name, s.take(0)) == Seq::<Piece>::empty(),
        s.take(s.len() as int) == s,
        forall|k: int|
            0 <= k < s.len() ==> #[trigger] mapping_rows(name, s.take(k + 1)) == mapping_rows(name, s.take(k))
                + mapping_inner_rows(name, s[k].0@, s[k].1@),
{
    assert(s.take(s.len() as int) =~= s);
    assert forall|k: int| 0 <= k < s.len() implies #[trigger] mapping_rows(name, s.take(k + 1)) == mapping_rows(
        name,
        s.take(k),
    ) + mapping_inner_rows(name, s[k].0@, s[k].1@) by {
        assert(s.take(k + 1).drop_last() =~= s.take(k));
        assert(s.take(k + 1).last() == s[k]);
    }
}

/// The mappings, one after another in order.
pub proof fn law_mappings(s: Seq<MappingInstruction>)
    ensures
        mappings_pieces(s.take(0)) == Seq::<Piece>::empty(),
        s.take(s.len() as int) == s,
        forall|k: int|
            0 <= k < s.len() ==> #[trigger] mappings_pieces(s.take(k + 1)) == mappings_pieces(s.take(k))
                + mapping_pieces(s[k]),
{
    assert(s.take(s.len() as int) =~= s);
    assert forall|k: int| 0 <= k < s.len() implies #[trigger] mappings_pieces(s.take(k + 1)) == mappings_pieces(
        s.take(k),
    ) + mapping_pieces(s[k]) by {
        assert(s.take(k + 1).drop_last() =~= s.take(k));
        assert(s.take(k + 1).last() == s[k]);
    }
}

// ---------------------------------------------------------------------------
// Resource attributes
// ---------------------------------------------------------------------------

/// One `addDependency` statement per dependency, in order: the k-th names
/// the lower-case form of the k-th dependency.
pub proof fn law_dependencies(s: Seq<String>, target: Seq<char>, trailer: Seq<char>)
    ensures
        dependency_pieces(s, target, trailer).len() == s.len(),
        forall|k: int|
            0 <= k < s.len() ==> dependency_pieces(s, target, trailer)[k] == Piece::Text(
                target + ".addDependency("@ + spec_to_lowercase((#[trigger] s[k])@) + ")"@ + trailer,
            ),
    decreases s.len(),
{
    if s.len() > 0 {
        let t = s.drop_last();
        law_dependencies(t, target, trailer);
        assert forall|k: int| 0 <= k < s.len() implies dependency_pieces(s, target, trailer)[k] == Piece::Text(
            target + ".addDependency("@ + spec_to_lowercase((#[trigger] s[k])@) + ")"@ + trailer,
        ) by {
            if k < t.len() {
                assert(t[k] == s[k]);
                assert(dependency_pieces(s, target, trailer)[k] == dependency_pieces(t, target, trailer)[k]);
            }
        }
    }
}

/// One `addMetadata` statement per metadata entry, in order, the k-th with
/// the k-th entry's key and value.
pub proof fn law_metadata_entries(s: Seq<(String, ResourceIr)>, target: Seq<char>, trailer: Seq<char>)
    ensures
        metadata_entries(s.take(0), target, trailer) == Seq::<Piece>::empty(),
        s.take(s.len() as int) == s,
        forall|k: int|
            0 <= k < s.len() ==> #[trigger] metadata_entries(s.take(k + 1), target, trailer) == metadata_entries(
                s.take(k),
                target,
                trailer,
            ) + seq![Piece::Text(target + ".addMetadata(\""@ + s[k].0@ + "\", "@)] + java_pieces(s[k].1, None)
                + seq![Piece::Text(")"@ + trailer)],
{
    assert(s.take(s.len() as int) =~= s);
    assert forall|k: int| 0 <= k < s.len() implies #[trigger] metadata_entries(s.take(k + 1), target, trailer)
        == metadata_entries(s.take(k), target, trailer) + seq![
        Piece::Text(target + ".addMetadata(\""@ + s[k].0@ + "\", "@),
    ] + java_pieces(s[k].1, None) + seq![Piece::Text(")"@ + trailer)] by {
        assert(s.take(k + 1).drop_last() =~= s.take(k));
        assert(s.take(k + 1).last() == s[k]);
    }
}

// ---------------------------------------------------------------------------
// Values
// ---------------------------------------------------------------------------

/// The setters of a property builder, one per property in order: the k-th
/// is named after the camel-case form of the k-th property's own name and
/// holds that property's value.
pub proof fn law_property_entries(s: Seq<(String, ResourceIr)>, class: Option<Seq<char>>)
    ensures
        property_entries(s.take(0), class) == Seq::<Piece>::empty(),
        s.take(s.len() as int) == s,
        forall|k: int|
            0 <= k < s.len() ==> #[trigger] property_entries(s.take(k + 1), class) == property_entries(s.take(k), class)
                + seq![Piece::Text("."@ + spec_camel_case(s[k].0@) + "("@)] + java_pieces(s[k].1, class) + seq![
                Piece::Text(")\n"@),
            ],
{
    assert(s.take(s.len() as int) =~= s);
    assert forall|k: int| 0 <= k < s.len() implies #[trigger] property_entries(s.take(k + 1), class)
        == property_entries(s.take(k), class) + seq![Piece::Text("."@ + spec_camel_case(s[k].0@) + "("@)]
        + java_pieces(s[k].1, class) + seq![Piece::Text(")\n"@)] by {
        assert(s.take(k + 1).drop_last() =~= s.take(k));
        assert(s.take(k + 1).last() == s[k]);
    }
}

/// The entries of a `Map.of(` call, in order, the k-th with the k-th key
/// and value, and `,\n` between every two neighbours.
pub proof fn law_map_entries(s: Seq<(String, ResourceIr)>, class: Option<Seq<char>>)
    ensures
        map_entries(s.take(0), class) == Seq::<Piece>::empty(),
        s.take(s.len() as int) == s,
        s.len() > 0 ==> map_entries(s.take(1), class) == seq![Piece::Text("\""@ + s[0].0@ + "\", "@)] + java_pieces(
            s[0].1,
            class,
        ),
        forall|k: int|
            1 <= k < s.len() ==> #[trigger] map_entries(s.take(k + 1), class) == map_entries(s.take(k), class) + seq![
                Piece::Text(",\n"@),
                Piece::Text("\""@ + s[k].0@ + "\", "@),
            ] + java_pieces(s[k].1, class),
{
    assert(s.take(s.len() as int) =~= s);
    if s.len() > 0 {
        assert(s.take(1)[0] == s[0]);
    }
    assert forall|k: int| 1 <= k < s.len() implies #[trigger] map_entries(s.take(k + 1), class) == map_entries(
        s.take(k),
        class,
    ) + seq![Piece::Text(",\n"@), Piece::Text("\""@ + s[k].0@ + "\", "@)] + java_pieces(s[k].1, class) by {
        assert(s.take(k + 1).drop_last() =~= s.take(k));
        assert(s.take(k + 1).last() == s[k]);
    }
}

/// Values written one after another in order, with the separator between
/// every two neighbours.
pub proof fn law_separated(s: Seq<ResourceIr>, class: Option<Seq<char>>, sep: Seq<char>)
    ensures
        separated(s.take(0), class, sep) == Seq::<Piece>::empty(),
        s.take(s.len() as int) == s,
        s.len() > 0 ==> separated(s.take(1), class, sep) == java_pieces(s[0], class),
        forall|k: int|
            1 <= k < s.len() ==> #[trigger] separated(s.take(k + 1), class, sep) == separated(s.take(k), class, sep)
                + seq![Piece::Text(sep)] + java_pieces(s[k], class),
{
    assert(s.take(s.len() as int) =~= s);
    if s.len() > 0 {
        assert(s.take(1)[0] == s[0]);
    }
    assert forall|k: int| 1 <= k < s.len() implies #[trigger] separated(s.take(k + 1), class, sep) == separated(
        s.take(k),
        class,
        sep,
    ) + seq![Piece::Text(sep)] + java_pieces(s[k], class) by {
        assert(s.take(k + 1).drop_last() =~= s.take(k));
        assert(s.take(k + 1).last() == s[k]);
    }
}

/// The calls of a tag builder, entry by entry in order: an entry named
/// `Key` gives `.key(..)` with its value, one named `Value` gives
/// `.value(..)`, any other nothing.
pub proof fn law_tag_entries(s: Seq<(String, ResourceIr)>, class: Option<Seq<char>>)
    ensures
        tag_entries(s.take(0), class) == Seq::<Piece>::empty(),
        s.take(s.len() as int) == s,
        forall|k: int|
            0 <= k < s.len() ==> #[trigger] tag_entries(s.take(k + 1), class) == tag_entries(s.take(k), class) + (if eq_ignore_ascii_case(
                s[k].0@,
                "Key"@,
            ) {
                seq![Piece::Text(".key("@)] + java_pieces(s[k].1, class) + seq![Piece::Text(")\n"@)]
            } else {
                Seq::empty()
            }) + (if eq_ignore_ascii_case(s[k].0@, "Value"@) {
                seq![Piece::Text(".value("@)] + tag_value_pieces(s[k].1, class) + seq![Piece::Text(")\n"@)]
            } else {
                Seq::empty()
            }),
{
    assert(s.take(s.len() as int) =~= s);
    assert forall|k: int| 0 <= k < s.len() implies #[trigger] tag_entries(s.take(k + 1), class) == tag_entries(
        s.take(k),
        class,
    ) + (if eq_ignore_ascii_case(s[k].0@, "Key"@) {
        seq![Piece::Text(".key("@)] + java_pieces(s[k].1, class) + seq![Piece::Text(")\n"@)]
    } else {
        Seq::empty()
    }) + (if eq_ignore_ascii_case(s[k].0@, "Value"@) {
        seq![Piece::Text(".value("@)] + tag_value_pieces(s[k].1, class) + seq![Piece::Text(")\n"@)]
    } else {
        Seq::empty()
    }) by {
        assert(s.take(k + 1).drop_last() =~= s.take(k));
        assert(s.take(k + 1).last() == s[k]);
    }
}

/// The pieces of one part of a substitution: a literal becomes a Java
/// string literal, any other value its expression.
pub open spec fn sub_part(p: ResourceIr, class: Option<Seq<char>>) -> Seq<Piece> {
    match p {
        ResourceIr::String(lit) => seq![Piece::Text("\""@ + lit@ + "\""@)],
        _ => java_pieces(p, class),
    }
}

/// The parts of a substitution, in order, with ` + ` between every two
/// neighbours, whatever kind of part follows.
pub proof fn law_sub_parts(s: Seq<ResourceIr>, class: Option<Seq<char>>)
    ensures
        sub_parts(s.take(0), class) == Seq::<Piece>::empty(),
        s.take(s.len() as int) == s,
        s.len() > 0 ==> sub_parts(s.take(1), class) == sub_part(s[0], class),
        forall|k: int|
            1 <= k < s.len() ==> #[trigger] sub_parts(s.take(k + 1), class) == sub_parts(s.take(k), class) + seq![
                Piece::Text(" + "@),
            ] + sub_part(s[k], class),
{
    assert(s.take(s.len() as int) =~= s);
    if s.len() > 0 {
        assert(s.take(1).last() == s[0]);
        assert(s.take(1).drop_last() =~= Seq::<ResourceIr>::empty());
        assert(Seq::<Piece>::empty() + sub_part(s[0], class) =~= sub_part(s[0], class));
    }
    assert forall|k: int| 1 <= k < s.len() implies #[trigger] sub_parts(s.take(k + 1), class) == sub_parts(
        s.take(k),
        class,
    ) + seq![Piece::Text(" + "@)] + sub_part(s[k], class) by {
        assert(s.take(k + 1).drop_last() =~= s.take(k));
        assert(s.take(k + 1).last() == s[k]);
    }
}

// ---------------------------------------------------------------------------
// Texts joined with separators
// ---------------------------------------------------------------------------

/// Texts joined in order, with the separator between every two
/// neighbours.
pub proof fn law_join_text(parts: Seq<Seq<char>>, sep: Seq<char>)
    ensures
        join_text(parts.take(0), sep) == Seq::<char>::empty(),
        parts.take(parts.len() as int) == parts,
        parts.len() > 0 ==> join_text(parts.take(1), sep) == parts[0],
        forall|k: int|
            1 <= k < parts.len() ==> #[trigger] join_text(parts.take(k + 1), sep) == join_text(parts.take(k), sep) + sep
                + parts[k],
{
    assert(parts.take(parts.len() as int) =~= parts);
    if parts.len() > 0 {
        assert(parts.take(1)[0] == parts[0]);
    }
    assert forall|k: int| 1 <= k < parts.len() implies #[trigger] join_text(parts.take(k + 1), sep) == join_text(
        parts.take(k),
        sep,
    ) + sep + parts[k] by {
        assert(parts.take(k + 1).drop_last() =~= parts.take(k));
        assert(parts.take(k + 1).last() == parts[k]);
    }
}

/// Conditions in order, with the separator between every two neighbours.
pub proof fn law_conditions_text(s: Seq<ConditionIr>, sep: Seq<char>)
    ensures
        conditions_text(s.take(0), sep) == Seq::<char>::empty(),
        s.take(s.len() as int) == s,
        s.len() > 0 ==> conditions_text(s.take(1), sep) == condition_text(s[0]),
        forall|k: int|
            1 <= k < s.len() ==> #[trigger] conditions_text(s.take(k + 1), sep) == conditions_text(s.take(k), sep) + sep
                + condition_text(s[k]),
{
    assert(s.take(s.len() as int) =~= s);
    if s.len() > 0 {
        assert(s.take(1)[0] == s[0]);
    }
    assert forall|k: int| 1 <= k < s.len() implies #[trigger] conditions_text(s.take(k + 1), sep) == conditions_text(
        s.take(k),
        sep,
    ) + sep + condition_text(s[k]) by {
        assert(s.take(k + 1).drop_last() =~= s.take(k));
        assert(s.take(k + 1).last() == s[k]);
    }
}

/// The debug renderings of values in order, separated by `, `.
pub proof fn law_list_debug(s: Seq<ResourceIr>)
    ensures
        list_debug(s.take(0)) == Seq::<char>::empty(),
        s.take(s.len() as int) == s,
        s.len() > 0 ==> list_debug(s.take(1)) == ir_debug(s[0]),
        forall|k: int|
            1 <= k < s.len() ==> #[trigger] list_debug(s.take(k + 1)) == list_debug(s.take(k)) + ", "@ + ir_debug(s[k]),
{
    assert(s.take(s.len() as int) =~= s);
    if s.len() > 0 {
        assert(s.take(1)[0] == s[0]);
    }
    assert forall|k: int| 1 <= k < s.len() implies #[trigger] list_debug(s.take(k + 1)) == list_debug(s.take(k))
        + ", "@ + ir_debug(s[k]) by {
        assert(s.take(k + 1).drop_last() =~= s.take(k));
        assert(s.take(k + 1).last() == s[k]);
    }
}

/// The debug renderings of entries in order, `key: value`, separated by
/// `, `.
pub proof fn law_entries_debug(s: Seq<(String, ResourceIr)>)
    ensures
        entries_debug(s.take(0)) == Seq::<char>::empty(),
        s.take(s.len() as int) == s,
        s.len() > 0 ==> entries_debug(s.take(1)) == spec_debug_text(s[0].0@) + ": "@ + ir_debug(s[0].1),
        forall|k: int|
            1 <= k < s.len() ==> #[trigger] entries_debug(s.take(k + 1)) == entries_debug(s.take(k)) + ", "@
                + spec_debug_text(s[k].0@) + ": "@ + ir_debug(s[k].1),
{
    assert(s.take(s.len() as int) =~= s);
    if s.len() > 0 {
        assert(s.take(1)[0] == s[0]);
    }
    assert forall|k: int| 1 <= k < s.len() implies #[trigger] entries_debug(s.take(k + 1)) == entries_debug(s.take(k))
        + ", "@ + spec_debug_text(s[k].0@) + ": "@ + ir_debug(s[k].1) by {
        assert(s.take(k + 1).drop_last() =~= s.take(k));
        assert(s.take(k + 1).last() == s[k]);
    }
}

// ---------------------------------------------------------------------------
// Sections of the class
// ---------------------------------------------------------------------------

/// One import line per import, in order: the k-th import's statement and a
/// line break.
pub proof fn law_import_lines(s: Seq<ImportInstruction>)
    ensures
        import_lines(s).len() == 2 * s.len(),
        forall|k: int|
            0 <= k < s.len() ==> import_lines(s)[2 * k] == Piece::Text(import_text(#[trigger] s[k])) && import_lines(
                s,
            )[2 * k + 1] == Piece::Text(crate::code::nl()),
    decreases s.len(),
{
    if s.len() > 0 {
        let t = s.drop_last();
        law_import_lines(t);
        assert forall|k: int| 0 <= k < s.len() implies import_lines(s)[2 * k] == Piece::Text(
            import_text(#[trigger] s[k]),
        ) && import_lines(s)[2 * k + 1] == Piece::Text(crate::code::nl()) by {
            if k < t.len() {
                assert(t[k] == s[k]);
                assert(import_lines(s)[2 * k] == import_lines(t)[2 * k]);
                assert(import_lines(s)[2 * k + 1] == import_lines(t)[2 * k + 1]);
            }
        }
    }
}

/// One `Boolean` declaration per condition, in order: the k-th declares
/// the camel-case form of the k-th condition's name with its expression.
pub proof fn law_condition_lines(s: Seq<ConditionInstruction>)
    ensures
        crate::java::condition_lines(s).len() == 2 * s.len(),
        forall|k: int|
            0 <= k < s.len() ==> crate::java::condition_lines(s)[2 * k] == Piece::Text(
                "Boolean "@ + spec_camel_case((#[trigger] s[k]).name@) + " = "@ + condition_text(s[k].value) + ";"@,
            ),
    decreases s.len(),
{
    if s.len() > 0 {
        let t = s.drop_last();
        law_condition_lines(t);
        assert forall|k: int| 0 <= k < s.len() implies crate::java::condition_lines(s)[2 * k] == Piece::Text(
            "Boolean "@ + spec_camel_case((#[trigger] s[k]).name@) + " = "@ + condition_text(s[k].value) + ";"@,
        ) by {
            if k < t.len() {
                assert(t[k] == s[k]);
                assert(crate::java::condition_lines(s)[2 * k] == crate::java::condition_lines(t)[2 * k]);
            }
        }
    }
}

/// One field line per output, in order: the k-th declares the camel-case
/// form of the k-th output's name, `Optional<Object>` when it has a
/// condition and `Object` otherwise.
pub proof fn law_output_field_lines(s: Seq<OutputInstruction>)
    ensures
        output_field_lines(s).len() == 2 * s.len(),
        forall|k: int|
            0 <= k < s.len() ==> output_field_lines(s)[2 * k] == Piece::Text(
                "private "@ + (if (#[trigger] s[k]).condition is Some {
                    "Optional<Object>"@
                } else {
                    "Object"@
                }) + " "@ + spec_camel_case(s[k].name@) + ";\n"@,
            ),
    decreases s.len(),
{
    if s.len() > 0 {
        let t = s.drop_last();
        law_output_field_lines(t);
        assert forall|k: int| 0 <= k < s.len() implies output_field_lines(s)[2 * k] == Piece::Text(
            "private "@ + (if (#[trigger] s[k]).condition is Some {
                "Optional<Object>"@
            } else {
                "Object"@
            }) + " "@ + spec_camel_case(s[k].name@) + ";\n"@,
        ) by {
            if k < t.len() {
                assert(t[k] == s[k]);
                assert(output_field_lines(s)[2 * k] == output_field_lines(t)[2 * k]);
            }
        }
    }
}

/// One getter per output, in order, the k-th for the k-th output.
pub proof fn law_output_getters(s: Seq<OutputInstruction>)
    ensures
        output_getters(s.take(0)) == Seq::<Piece>::empty(),
        s.take(s.len() as int) == s,
        forall|k: int|
            0 <= k < s.len() ==> #[trigger] output_getters(s.take(k + 1)) == output_getters(s.take(k)) + getter_pieces(
                s[k].condition is Some,
                spec_pascal_case(s[k].name@),
                spec_camel_case(s[k].name@),
            ),
{
    assert(s.take(s.len() as int) =~= s);
    assert forall|k: int| 0 <= k < s.len() implies #[trigger] output_getters(s.take(k + 1)) == output_getters(
        s.take(k),
    ) + getter_pieces(s[k].condition is Some, spec_pascal_case(s[k].name@), spec_camel_case(s[k].name@)) by {
        assert(s.take(k + 1).drop_last() =~= s.take(k));
        assert(s.take(k + 1).last() == s[k]);
    }
}

/// The statements of every output, in order, the k-th for the k-th
/// output.
pub proof fn law_outputs_in_order(s: Seq<OutputInstruction>)
    ensures
        outputs_pieces(s.take(0)) == Seq::<Piece>::empty(),
        s.take(s.len() as int) == s,
        forall|k: int|
            0 <= k < s.len() ==> #[trigger] outputs_pieces(s.take(k + 1)) == outputs_pieces(s.take(k)) + output_pieces(
                s[k],
            ),
{
    assert(s.take(s.len() as int) =~= s);
    assert forall|k: int| 0 <= k < s.len() implies #[trigger] outputs_pieces(s.take(k + 1)) == outputs_pieces(
        s.take(k),
    ) + output_pieces(s[k]) by {
        assert(s.take(k + 1).drop_last() =~= s.take(k));
        assert(s.take(k + 1).last() == s[k]);
    }
}

/// Every resource, in order: the k-th resource's declaration, a line
/// break and its attribute statements (under its own condition).
pub proof fn law_resources_in_order(s: Seq<ResourceInstruction>)
    ensures
        resources_pieces(s.take(0)) == Seq::<Piece>::empty(),
        s.take(s.len() as int) == s,
        forall|k: int|
            0 <= k < s.len() ==> #[trigger] resources_pieces(s.take(k + 1)) == resources_pieces(s.take(k))
                + resource_pieces(s[k]) + seq![Piece::Text(crate::code::nl())] + attribute_pieces(
                s[k],
                s[k].condition is Some,
            ),
{
    assert(s.take(s.len() as int) =~= s);
    assert forall|k: int| 0 <= k < s.len() implies #[trigger] resources_pieces(s.take(k + 1)) == resources_pieces(
        s.take(k),
    ) + resource_pieces(s[k]) + seq![Piece::Text(crate::code::nl())] + attribute_pieces(s[k], s[k].condition is Some)
        by {
        assert(s.take(k + 1).drop_last() =~= s.take(k));
        assert(s.take(k + 1).last() == s[k]);
    }
}

/// The default-setting pieces of every parameter, in order, the k-th for
/// the k-th parameter.
pub proof fn law_props_in_order(s: Seq<ParamModel>)
    ensures
        props_pieces(s.take(0)) == Seq::<Piece>::empty(),
        s.take(s.len() as int) == s,
        forall|k: int|
            0 <= k < s.len() ==> #[trigger] props_pieces(s.take(k + 1)) == props_pieces(s.take(k)) + prop_pieces(s[k]),
{
    assert(s.take(s.len() as int) =~= s);
    assert forall|k: int| 0 <= k < s.len() implies #[trigger] props_pieces(s.take(k + 1)) == props_pieces(s.take(k))
        + prop_pieces(s[k]) by {
        assert(s.take(k + 1).drop_last() =~= s.take(k));
        assert(s.take(k + 1).last() == s[k]);
    }
}

// ---------------------------------------------------------------------------
// Text
// ---------------------------------------------------------------------------

/// A text repeated once more is the text followed by the repetitions so
/// far, and also the repetitions followed by the text; no repetitions is
/// the empty text.
pub proof fn law_repeat_text(s: Seq<char>, n: nat)
    ensures
        repeat_text(s, 0) == Seq::<char>::empty(),
        repeat_text(s, n + 1) == repeat_text(s, n) + s,
        repeat_text(s, n + 1) == s + repeat_text(s, n),
        repeat_text(s, n).len() == n * s.len(),
    decreases n,
{
    if n == 0 {
        assert(repeat_text(s, 0) + s =~= s + repeat_text(s, 0));
    } else {
        law_repeat_text(s, (n - 1) as nat);
        let m = (n - 1) as nat;
        assert(repeat_text(s, n + 1) == repeat_text(s, n) + s);
        assert(repeat_text(s, n) == s + repeat_text(s, m));
        assert(repeat_text(s, n) + s =~= s + (repeat_text(s, m) + s));
        assert(n * s.len() == m * s.len() + s.len()) by (nonlinear_arith)
            requires
                n == m + 1,
        ;
    }
}

/// The number a text of decimal digits stands for.
pub open spec fn decimal_value(s: Seq<char>) -> int
    decreases s.len(),
{
    if s.len() == 0 {
        0
    } else {
        decimal_value(s.drop_last()) * 10 + (s.last() as int - '0' as int)
    }
}

/// The decimal rendering of a number is made of digits, begins with a
/// digit other than `0` unless the number is zero, and stands for the
/// number.
pub proof fn law_nat_text(n: nat)
    ensures
        nat_text(n).len() > 0,
        forall|i: int| 0 <= i < nat_text(n).len() ==> '0' <= #[trigger] nat_text(n)[i] <= '9',
        n > 0 ==> nat_text(n)[0] != '0',
        decimal_value(nat_text(n)) == n,
    decreases n,
{
    lemma_digit_char(n % 10);
    if n < 10 {
        lemma_digit_char(n);
        assert(nat_text(n) =~= seq![digit_char(n)]);
        assert(nat_text(n).drop_last() =~= Seq::<char>::empty());
        assert(decimal_value(Seq::<char>::empty()) == 0);
        assert(nat_text(n).last() == digit_char(n));
        assert(decimal_value(nat_text(n)) == decimal_value(nat_text(n).drop_last()) * 10 + (digit_char(n) as int - '0' as int));
    } else {
        law_nat_text(n / 10);
        let t = nat_text(n / 10);
        assert(nat_text(n) == t.push(digit_char(n % 10)));
        assert(nat_text(n).drop_last() =~= t);
        assert(nat_text(n)[0] == t[0]);
        assert forall|i: int| 0 <= i < nat_text(n).len() implies '0' <= #[trigger] nat_text(n)[i] <= '9' by {
            if i < t.len() {
                assert(nat_text(n)[i] == t[i]);
            }
        }
        assert(n == (n / 10) * 10 + n % 10);
        assert(nat_text(n).last() == digit_char(n % 10));
        assert(decimal_value(nat_text(n)) == decimal_value(t) * 10 + (digit_char(n % 10) as int - '0' as int));
    }
}

proof fn lemma_digit_char(d: nat)
    requires
        d < 10,
    ensures
        digit_char(d) as int == '0' as int + d,
        '0' <= digit_char(d) <= '9',
{
    let x: u8 = (48 + d) as u8;
    assert(x as int == 48 + d);
    assert(x as char as int == x as int);
}

/// Keeping the alphanumeric characters keeps exactly those, in order: a
/// character added at the end is kept exactly when it is alphanumeric.
pub proof fn law_alphanumeric_only(s: Seq<char>, c: char)
    ensures
        alphanumeric_only(Seq::empty()) == Seq::<char>::empty(),
        alphanumeric_only(s.push(c)) == if spec_is_alphanumeric(c) {
            alphanumeric_only(s).push(c)
        } else {
            alphanumeric_only(s)
        },
{
    reveal(Seq::filter);
    assert(s.push(c).drop_last() =~= s);
    assert(s.push(c).last() == c);
}

} // verus!
