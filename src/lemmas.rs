use vstd::prelude::*;
use crate::annotate::{
    children_spec, emit_all_spec, emit_spec, fields_spec, number_text, own_lines_spec, piece,
    severity_spec,
};
use crate::json::{field_spec, string_spec, u64_spec, Json};
use crate::text::decimal_spec;

verus! {

proof fn lemma_first_children(node: Json, n: int)
    requires
        0 <= n <= children_spec(node).len(),
    ensures
        emit_all_spec(node, n) == children_spec(node).take(n).map_values(|c: Json| emit_spec(c)).flatten_alt(),
    decreases n,
{
    let all = children_spec(node).take(n).map_values(|c: Json| emit_spec(c));
    if n > 0 {
        lemma_first_children(node, n - 1);
        assert(all.drop_last() =~= children_spec(node).take(n - 1).map_values(|c: Json| emit_spec(c)));
    } else {
        assert(all =~= Seq::empty());
    }
}

/// The lines of a diagnostic are the lines of each element of its
/// `children` array, one visit per element and in the array's order,
/// followed by the lines of its own spans.
pub proof fn lemma_children_before_own(node: Json)
    ensures
        emit_spec(node) == children_spec(node).map_values(|c: Json| emit_spec(c)).flatten()
            + own_lines_spec(node),
        children_spec(node).map_values(|c: Json| emit_spec(c)).len() == children_spec(node).len(),
{
    let n = children_spec(node).len() as int;
    lemma_first_children(node, n);
    assert(children_spec(node).take(n) =~= children_spec(node));
    children_spec(node).map_values(|c: Json| emit_spec(c)).lemma_flatten_and_flatten_alt_are_equivalent();
}

/// A diagnostic whose level is none of `error`, `help` and `warning` gives
/// no line of its own: all its lines come from its children.
pub proof fn lemma_unknown_level_silent(node: Json, level: Seq<char>)
    requires
        string_spec(field_spec(node, "level"@)) == Some(level),
        level != "error"@,
        level != "help"@,
        level != "warning"@,
    ensures
        own_lines_spec(node) == Seq::<Seq<char>>::empty(),
        emit_spec(node) == emit_all_spec(node, children_spec(node).len() as int),
{
    assert(severity_spec(level) is None);
    assert(emit_spec(node) =~= emit_all_spec(node, children_spec(node).len() as int));
}

/// A diagnostic with a level and a message but no `spans` field gives no
/// line of its own.
pub proof fn lemma_no_spans_silent(node: Json)
    requires
        field_spec(node, "spans"@) is None,
    ensures
        own_lines_spec(node) == Seq::<Seq<char>>::empty(),
{
}

/// A diagnostic with an empty `children` array and no `spans`, `level` or
/// `message` gives no line at all.
pub proof fn lemma_empty_node_silent(node: Json)
    requires
        field_spec(node, "children"@) matches Some(Json::Array(items)) && items@.len() == 0,
        field_spec(node, "spans"@) is None,
        field_spec(node, "level"@) is None,
        field_spec(node, "message"@) is None,
    ensures
        emit_spec(node) == Seq::<Seq<char>>::empty(),
{
    assert(emit_spec(node) =~= Seq::<Seq<char>>::empty());
}

/// The span field that the `k`-th fragment of a line is taken from.
pub open spec fn source_key(k: int) -> Seq<char> {
    if k == 0 {
        "file_name"@
    } else if k == 1 {
        "column_start"@
    } else if k == 2 {
        "column_end"@
    } else if k == 3 {
        "line_start"@
    } else {
        "line_end"@
    }
}

/// The key that the `k`-th fragment of a line is written with.
pub open spec fn output_key(k: int) -> Seq<char> {
    if k == 0 {
        "file"@
    } else if k == 1 {
        "col"@
    } else if k == 2 {
        "endColumn"@
    } else if k == 3 {
        "line"@
    } else {
        "endLine"@
    }
}

/// The value of the `k`-th field of `span` as written, when it is present
/// with its type: a string for the file name, an unsigned integer else.
pub open spec fn field_value(span: Json, k: int) -> Option<Seq<char>> {
    if k == 0 {
        string_spec(field_spec(span, source_key(k)))
    } else {
        match u64_spec(field_spec(span, source_key(k))) {
            Some(n) => Some(decimal_spec(n as nat)),
            None => None,
        }
    }
}

/// The `key=value` fragment for the `k`-th field of `span`, if present.
pub open spec fn fragment(span: Json, k: int) -> Option<Seq<char>> {
    match field_value(span, k) {
        Some(v) => Some(output_key(k) + "="@ + v),
        None => None,
    }
}

/// The `k`-th fragment with the comma that comes before every fragment but
/// the file's, or nothing when the field is absent.
pub open spec fn separated_fragment(span: Json, k: int) -> Seq<char> {
    match fragment(span, k) {
        Some(f) => if k == 0 { f } else { ","@ + f },
        None => Seq::empty(),
    }
}

/// The fields part of a line holds one `key=value` fragment for each of
/// the five span fields that is present with its type, and nothing else:
/// no fragment for an absent or mistyped field.
pub proof fn lemma_fragments_match_fields(span: Json)
    ensures
        fields_spec(span) == separated_fragment(span, 0) + separated_fragment(span, 1)
            + separated_fragment(span, 2) + separated_fragment(span, 3) + separated_fragment(
            span,
            4,
        ),
        forall|k: int| 0 <= k < 5 ==> (#[trigger] fragment(span, k) is Some <==> field_value(span, k) is Some),
{
    reveal_strlit("file=");
    reveal_strlit("file");
    reveal_strlit("=");
    reveal_strlit(",");
    reveal_strlit(",col=");
    reveal_strlit("col");
    reveal_strlit(",endColumn=");
    reveal_strlit("endColumn");
    reveal_strlit(",line=");
    reveal_strlit("line");
    reveal_strlit(",endLine=");
    reveal_strlit("endLine");
    assert(piece("file="@, string_spec(field_spec(span, "file_name"@))) =~= separated_fragment(span, 0));
    assert(piece(",col="@, number_text(span, "column_start"@)) =~= separated_fragment(span, 1));
    assert(piece(",endColumn="@, number_text(span, "column_end"@)) =~= separated_fragment(span, 2));
    assert(piece(",line="@, number_text(span, "line_start"@)) =~= separated_fragment(span, 3));
    assert(piece(",endLine="@, number_text(span, "line_end"@)) =~= separated_fragment(span, 4));
}

} // verus!
