use vstd::prelude::*;
use crate::json::{Json, field_spec, member_spec, first_member_at, string_spec, u64_spec, json_string, json_u64};
use crate::text::{decimal_spec, push_decimal, owned};

verus! {

/// The severity token that the level `level` is written with, if it has one.
pub open spec fn severity_spec(level: Seq<char>) -> Option<Seq<char>> {
    if level == "error"@ {
        Some("error"@)
    } else if level == "help"@ {
        Some("notice"@)
    } else if level == "warning"@ {
        Some("warning"@)
    } else {
        None
    }
}

/// `label` followed by `value` when there is a value, else nothing.
pub open spec fn piece(label: Seq<char>, value: Option<Seq<char>>) -> Seq<char> {
    match value {
        Some(v) => label + v,
        None => Seq::empty(),
    }
}

/// The field `key` of `span` in base ten, when it is an unsigned integer.
pub open spec fn number_text(span: Json, key: Seq<char>) -> Option<Seq<char>> {
    match u64_spec(field_spec(span, key)) {
        Some(n) => Some(decimal_spec(n as nat)),
        None => None,
    }
}

/// The `key=value` part of the annotation for `span`.
pub open spec fn fields_spec(span: Json) -> Seq<char> {
    piece("file="@, string_spec(field_spec(span, "file_name"@)))
        + piece(",col="@, number_text(span, "column_start"@))
        + piece(",endColumn="@, number_text(span, "column_end"@))
        + piece(",line="@, number_text(span, "line_start"@))
        + piece(",endLine="@, number_text(span, "line_end"@))
}

/// The annotation line for one span of a diagnostic.
pub open spec fn line_spec(severity: Seq<char>, span: Json, message: Seq<char>) -> Seq<char> {
    "::"@ + severity + " "@ + fields_spec(span) + "::"@ + message
}

/// One line for each span of `spans`, in order.
pub open spec fn span_lines_spec(severity: Seq<char>, spans: Seq<Json>, message: Seq<char>) -> Seq<Seq<char>>
    decreases spans.len(),
{
    if spans.len() == 0 {
        Seq::empty()
    } else {
        span_lines_spec(severity, spans.drop_last(), message).push(
            line_spec(severity, spans.last(), message),
        )
    }
}

/// The lines that a diagnostic gives for its own spans, its children aside.
pub open spec fn own_lines_spec(node: Json) -> Seq<Seq<char>> {
    match (string_spec(field_spec(node, "level"@)), string_spec(field_spec(node, "message"@))) {
        (Some(level), Some(message)) => match severity_spec(level) {
            Some(severity) => match field_spec(node, "spans"@) {
                Some(Json::Array(spans)) => span_lines_spec(severity, spans@, message),
                _ => Seq::empty(),
            },
            None => Seq::empty(),
        },
        _ => Seq::empty(),
    }
}

/// The children of a diagnostic: the elements of its `children` array.
pub open spec fn children_spec(node: Json) -> Seq<Json> {
    match field_spec(node, "children"@) {
        Some(Json::Array(items)) => items@,
        _ => Seq::empty(),
    }
}

proof fn lemma_children_decrease(node: Json)
    ensures
        forall|i: int|
            0 <= i < children_spec(node).len() ==> decreases_to!(node => #[trigger] children_spec(node)[i]),
{
    if let Json::Object(members) = node {
        if exists|k: int| first_member_at(members@, "children"@, k) {
            let k = choose|k: int| first_member_at(members@, "children"@, k);
            if let Json::Array(items) = members@[k].1 {
                assert forall|i: int| 0 <= i < children_spec(node).len() implies decreases_to!(node => #[trigger] children_spec(node)[i]) by {
                    assert(children_spec(node) == items@);
                    assert(decreases_to!(members => members[k]));
                    assert(decreases_to!(items => items[i]));
                }
            }
        }
    }
}

/// All lines of a diagnostic: those of its children, depth first and in
/// order, then those of its own spans.
pub open spec fn emit_spec(node: Json) -> Seq<Seq<char>>
    decreases node, 1nat,
    via emit_spec_decreases
{
    emit_all_spec(node, children_spec(node).len() as int) + own_lines_spec(node)
}

/// The lines of the first `n` children of `node`.
pub open spec fn emit_all_spec(node: Json, n: int) -> Seq<Seq<char>>
    decreases node, 0nat, n,
    via emit_all_spec_decreases
{
    if n <= 0 || n > children_spec(node).len() {
        Seq::empty()
    } else {
        emit_all_spec(node, n - 1) + emit_spec(children_spec(node)[n - 1])
    }
}

#[via_fn]
proof fn emit_spec_decreases(node: Json) {
}

#[via_fn]
proof fn emit_all_spec_decreases(node: Json, n: int) {
    if 0 < n <= children_spec(node).len() {
        lemma_children_decrease(node);
        assert(decreases_to!(node => children_spec(node)[n - 1]));
    }
}

/// The text of each line, in order.
pub open spec fn texts(lines: Seq<String>) -> Seq<Seq<char>> {
    lines.map_values(|l: String| l@)
}

proof fn lemma_texts_push(lines: Seq<String>, l: String)
    ensures
        texts(lines.push(l)) == texts(lines).push(l@),
{
    assert(texts(lines.push(l)) =~= texts(lines).push(l@));
}

/// The severity token for `level`: `error`, `notice` for `help`, and
/// `warning`; no token for any other level.
pub fn severity(level: &String) -> (r: Option<String>)
    ensures
        match (r, severity_spec(level@)) {
            (Some(t), Some(u)) => t@ == u,
            (None, None) => true,
            _ => false,
        },
{
    if *level == owned("error") {
        Some(owned("error"))
    } else if *level == owned("help") {
        Some(owned("notice"))
    } else if *level == owned("warning") {
        Some(owned("warning"))
    } else {
        None
    }
}

/// Appends `label` and the field `key` of `span` in base ten, when that
/// field is an unsigned integer.
fn push_number(out: &mut String, label: &str, span: &Json, key: &str)
    ensures
        final(out)@ == old(out)@ + piece(label@, number_text(*span, key@)),
{
    let k = owned(key);
    match json_u64(span.get(&k)) {
        Some(n) => {
            out.append(label);
            push_decimal(out, n);
            assert(final(out)@ =~= old(out)@ + piece(label@, number_text(*span, key@)));
        },
        None => {
            assert(final(out)@ =~= old(out)@ + piece(label@, number_text(*span, key@)));
        },
    }
}

/// The annotation line for `span`:
/// `::<severity> file=..,col=..,endColumn=..,line=..,endLine=..::<message>`,
/// where each `key=value` is there only when its field is present with the
/// right type.
pub fn format_line(severity: &String, span: &Json, message: &String) -> (r: String)
    ensures
        r@ == line_spec(severity@, *span, message@),
{
    let mut out = owned("::");
    out.append(severity.as_str());
    out.append(" ");
    let file_key = owned("file_name");
    match json_string(span.get(&file_key)) {
        Some(file_name) => {
            out.append("file=");
            out.append(file_name.as_str());
        },
        None => {},
    }
    assert(out@ =~= "::"@ + severity@ + " "@ + piece("file="@, string_spec(field_spec(*span, "file_name"@))));
    push_number(&mut out, ",col=", span, "column_start");
    push_number(&mut out, ",endColumn=", span, "column_end");
    push_number(&mut out, ",line=", span, "line_start");
    push_number(&mut out, ",endLine=", span, "line_end");
    out.append("::");
    out.append(message.as_str());
    assert(out@ =~= line_spec(severity@, *span, message@));
    out
}

/// Appends to `out` the lines that `node` gives for its own spans.
fn emit_own(node: &Json, out: &mut Vec<String>)
    ensures
        texts(final(out)@) == texts(old(out)@) + own_lines_spec(*node),
{
    let level = json_string(node.get(&owned("level")));
    let message = json_string(node.get(&owned("message")));
    let (level, message) = match (level, message) {
        (Some(level), Some(message)) => (level, message),
        _ => {
            assert(texts(out@) =~= texts(old(out)@) + own_lines_spec(*node));
            return;
        },
    };
    let severity = match severity(&level) {
        Some(severity) => severity,
        None => {
            assert(texts(out@) =~= texts(old(out)@) + own_lines_spec(*node));
            return;
        },
    };
    let spans = match node.get(&owned("spans")) {
        Some(value) => match value.as_array() {
            Some(spans) => spans,
            None => {
                assert(texts(out@) =~= texts(old(out)@) + own_lines_spec(*node));
                return;
            },
        },
        None => {
            assert(texts(out@) =~= texts(old(out)@) + own_lines_spec(*node));
            return;
        },
    };
    assert(own_lines_spec(*node) == span_lines_spec(severity@, spans@, message@));
    assert(texts(out@) =~= texts(old(out)@) + span_lines_spec(severity@, spans@.subrange(0, 0), message@));
    let mut i: usize = 0;
    while i < spans.len()
        invariant
            i <= spans@.len(),
            texts(out@) == texts(old(out)@) + span_lines_spec(severity@, spans@.subrange(0, i as int), message@),
        decreases spans@.len() - i,
    {
        let line = format_line(&severity, &spans[i], &message);
        proof {
            lemma_texts_push(out@, line);
            let done = spans@.subrange(0, i as int + 1);
            assert(done.drop_last() =~= spans@.subrange(0, i as int));
            assert(done.last() == spans@[i as int]);
        }
        out.push(line);
        i = i + 1;
        assert(texts(out@) =~= texts(old(out)@) + span_lines_spec(severity@, spans@.subrange(0, i as int), message@));
    }
    assert(spans@.subrange(0, spans@.len() as int) =~= spans@);
}

/// Appends to `out` the lines of `node`: first those of each child, in
/// order and depth first, then one for each of its own spans.
pub fn emit(node: &Json, out: &mut Vec<String>)
    ensures
        texts(final(out)@) == texts(old(out)@) + emit_spec(*node),
    decreases *node,
{
    let mut count: usize = 0;
    assert(texts(out@) =~= texts(old(out)@) + emit_all_spec(*node, 0));
    match node.get(&owned("children")) {
        Some(value) => match value.as_array() {
            Some(items) => {
                while count < items.len()
                    invariant
                        count <= items@.len(),
                        items@ == children_spec(*node),
                        texts(out@) == texts(old(out)@) + emit_all_spec(*node, count as int),
                    decreases items@.len() - count,
                {
                    proof {
                        lemma_children_decrease(*node);
                    }
                    emit(&items[count], out);
                    count = count + 1;
                    assert(texts(out@) =~= texts(old(out)@) + emit_all_spec(*node, count as int));
                }
            },
            None => {},
        },
        None => {},
    }
    assert(count == children_spec(*node).len());
    emit_own(node, out);
    assert(texts(out@) =~= texts(old(out)@) + emit_spec(*node));
}

/// The lines of `node`, as `emit` gives them.
pub fn annotations(node: &Json) -> (r: Vec<String>)
    ensures
        texts(r@) == emit_spec(*node),
{
    let mut out: Vec<String> = Vec::new();
    assert(texts(out@) =~= Seq::empty());
    emit(node, &mut out);
    assert(texts(out@) =~= emit_spec(*node));
    out
}

/// The lines of a parsed input record: those of its `message` field when
/// it is an object with one, else none.
pub open spec fn record_spec(record: Json) -> Seq<Seq<char>> {
    match field_spec(record, "message"@) {
        Some(message) => emit_spec(message),
        None => Seq::empty(),
    }
}

/// The annotation lines for one parsed input record.
pub fn annotate_record(record: &Json) -> (r: Vec<String>)
    ensures
        texts(r@) == record_spec(*record),
{
    match record.get(&owned("message")) {
        Some(message) => annotations(message),
        None => {
            let out: Vec<String> = Vec::new();
            assert(texts(out@) =~= Seq::empty());
            out
        },
    }
}

} // verus!
