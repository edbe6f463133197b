use crate::diagnostics::{Diagnostic, DiagnosticView, Severity};
use crate::helpers::{
    spec_add_dependency, spec_add_diagnostic, spec_add_import, spec_add_link, spec_add_symbol,
    spec_new_builder, symbol_id, BuilderView, PartitionBuilder,
};
use crate::ids::NodeId;
use crate::model::{EdgeKind, GraphPartition, PartitionView, SourceFile, SymbolKind};
use crate::paths::{file_name_of, spec_file_name};
use crate::python::text_fits;
use crate::quality::{Confidence, FactProvenance};
use crate::span::{LineColumn, SourceSpan};
use crate::text::{chars_of, concat, lines, lines_of, starts_with, string_from, string_views, utf8_len};
use vstd::prelude::*;
use vstd::utf8::encode_utf8;

verus! {

#[verifier::external_type_specification]
#[verifier::external_body]
pub struct ExJsonDocument(serde_json::Value);

/// A JSON document as the extractor reads it. A number keeps its text; an
/// object keeps its members in the order the parser hands them out.
#[derive(Debug)]
pub enum JsonValue {
    Null,
    Bool(bool),
    Number(String),
    Str(String),
    Array(Vec<JsonValue>),
    Object(Vec<(String, JsonValue)>),
}

/// What `serde_json` makes of `text`: the document, or the parser's error message.
pub uninterp spec fn json_parse_result(text: Seq<char>) -> Result<JsonValue, Seq<char>>;

/// A parse result with its error taken as text.
pub open spec fn parsed_view(r: Result<JsonValue, String>) -> Result<JsonValue, Seq<char>> {
    match r {
        Ok(v) => Ok(v),
        Err(e) => Err(e@),
    }
}

/// `serde_json::Value` as a `JsonValue`, member for member.
#[verifier::external_body]
fn json_value_from(value: &serde_json::Value) -> JsonValue {
    match value {
        serde_json::Value::Null => JsonValue::Null,
        serde_json::Value::Bool(b) => JsonValue::Bool(*b),
        serde_json::Value::Number(n) => JsonValue::Number(n.to_string()),
        serde_json::Value::String(s) => JsonValue::Str(s.clone()),
        serde_json::Value::Array(items) => JsonValue::Array(items.iter().map(json_value_from).collect()),
        serde_json::Value::Object(map) => JsonValue::Object(
            map.iter().map(|(k, v)| (k.clone(), json_value_from(v))).collect(),
        ),
    }
}

/// `serde_json::from_str::<serde_json::Value>`: parses `text` as one JSON
/// document. Claimed: the result is what `json_parse_result` names for `text`,
/// with the error as its `Display` text. Which texts parse, and the document's
/// member order, are left to the name.
#[verifier::external_body]
fn parse_json(text: &str) -> (r: Result<JsonValue, String>)
    ensures
        parsed_view(r) == json_parse_result(text@),
{
    match serde_json::from_str::<serde_json::Value>(text) {
        Ok(value) => Ok(json_value_from(&value)),
        Err(error) => Err(error.to_string()),
    }
}

/// The value of the first member of `pairs` named `key`.
pub open spec fn json_get(pairs: Seq<(String, JsonValue)>, key: Seq<char>) -> Option<JsonValue>
    decreases pairs.len(),
{
    if pairs.len() == 0 {
        None
    } else if pairs[0].0@ == key {
        Some(pairs[0].1)
    } else {
        json_get(pairs.drop_first(), key)
    }
}

/// The strings among `items`, in order.
pub open spec fn string_items(items: Seq<JsonValue>) -> Seq<Seq<char>>
    decreases items.len(),
{
    if items.len() == 0 {
        Seq::empty()
    } else {
        string_items(items.drop_last()) + match items.last() {
            JsonValue::Str(s) => seq![s@],
            _ => Seq::empty(),
        }
    }
}

/// The packages a dependency list names: an object's member names, or an array's strings.
pub open spec fn dependency_names(v: JsonValue) -> Seq<Seq<char>> {
    match v {
        JsonValue::Object(pairs) => pairs@.map_values(|p: (String, JsonValue)| p.0@),
        JsonValue::Array(items) => string_items(items@),
        _ => Seq::empty(),
    }
}

/// Whether a string names a path: it starts with `.` or `/`.
pub open spec fn is_path_target(s: Seq<char>) -> bool {
    starts_with(s, "."@) || starts_with(s, "/"@)
}

/// The path strings anywhere in `v`, in document order.
pub open spec fn json_refs(v: JsonValue) -> Seq<Seq<char>>
    decreases v, 0int,
{
    match v {
        JsonValue::Str(s) => if is_path_target(s@) {
            seq![s@]
        } else {
            Seq::empty()
        },
        JsonValue::Array(items) => items_refs(items@, items@.len() as int),
        JsonValue::Object(pairs) => members_refs(pairs@, pairs@.len() as int),
        _ => Seq::empty(),
    }
}

/// The path strings in the first `k` of `items`.
pub open spec fn items_refs(items: Seq<JsonValue>, k: int) -> Seq<Seq<char>>
    decreases items, k,
{
    if k <= 0 || k > items.len() {
        Seq::empty()
    } else {
        items_refs(items, k - 1) + json_refs(items[k - 1])
    }
}

/// The path strings in the values of the first `k` of `pairs`.
pub open spec fn members_refs(pairs: Seq<(String, JsonValue)>, k: int) -> Seq<Seq<char>>
    decreases pairs, k,
{
    if k <= 0 || k > pairs.len() {
        Seq::empty()
    } else {
        members_refs(pairs, k - 1) + json_refs(pairs[k - 1].1)
    }
}

/// The builder after importing each package of `names` and recording that the
/// document depends on it.
pub open spec fn add_package_deps(b: BuilderView, doc: Seq<char>, names: Seq<Seq<char>>, span: SourceSpan) -> BuilderView
    decreases names.len(),
{
    if names.len() == 0 {
        b
    } else {
        let b1 = add_package_deps(b, doc, names.drop_last(), span);
        spec_add_dependency(spec_add_import(b1, names.last(), span), doc, names.last(), span)
    }
}

/// The builder after a reference from the document to each of `targets`.
pub open spec fn add_doc_refs(b: BuilderView, doc: Seq<char>, targets: Seq<Seq<char>>, span: SourceSpan) -> BuilderView
    decreases targets.len(),
{
    if targets.len() == 0 {
        b
    } else {
        spec_add_link(add_doc_refs(b, doc, targets.drop_last(), span), EdgeKind::References, doc, targets.last(), span)
    }
}

/// The dependencies listed under one key of a manifest object.
pub open spec fn key_deps(b: BuilderView, pairs: Seq<(String, JsonValue)>, doc: Seq<char>, key: Seq<char>, span: SourceSpan) -> BuilderView {
    match json_get(pairs, key) {
        Some(v) => add_package_deps(b, doc, dependency_names(v), span),
        None => b,
    }
}

/// What a parsed document adds, when it is an object: a module named by its
/// `name` string; the packages under each dependency key, in the order
/// `dependencies`, `devDependencies`, `peerDependencies`, `optionalDependencies`,
/// `bundledDependencies`, `bundleDependencies`; then references to the path
/// strings of an `imports` object and of `exports`.
pub open spec fn spec_json_value(b: BuilderView, v: JsonValue, doc: Seq<char>, span: SourceSpan) -> BuilderView {
    match v {
        JsonValue::Object(pairs) => {
            let b1 = match json_get(pairs@, "name"@) {
                Some(JsonValue::Str(n)) => spec_add_symbol(b, n@, n@, SymbolKind::Module, span),
                _ => b,
            };
            let b2 = key_deps(b1, pairs@, doc, "dependencies"@, span);
            let b3 = key_deps(b2, pairs@, doc, "devDependencies"@, span);
            let b4 = key_deps(b3, pairs@, doc, "peerDependencies"@, span);
            let b5 = key_deps(b4, pairs@, doc, "optionalDependencies"@, span);
            let b6 = key_deps(b5, pairs@, doc, "bundledDependencies"@, span);
            let b7 = key_deps(b6, pairs@, doc, "bundleDependencies"@, span);
            let b8 = match json_get(pairs@, "imports"@) {
                Some(JsonValue::Object(m)) => add_doc_refs(b7, doc, json_refs(JsonValue::Object(m)), span),
                _ => b7,
            };
            match json_get(pairs@, "exports"@) {
                Some(e) => add_doc_refs(b8, doc, json_refs(e), span),
                None => b8,
            }
        },
        _ => b,
    }
}

/// The span of a whole document: all its bytes, from line 1 to its last line.
pub open spec fn document_span(text: Seq<char>) -> SourceSpan {
    let count = lines(text).len();
    SourceSpan {
        byte_start: 0,
        byte_end: encode_utf8(text).len() as u32,
        start: LineColumn { line: 1, column: 1 },
        end: LineColumn { line: (if count > 1 { count } else { 1 }) as u32, column: 1 },
    }
}

/// The partition of a JSON file given what the parser made of it: the document
/// module, named after the file, then what the document adds, or a warning with
/// the parser's message.
pub open spec fn spec_json_partition(file: SourceFile, parsed: Result<JsonValue, Seq<char>>) -> PartitionView {
    let b0 = spec_new_builder(file, FactProvenance::StructuralScanner, Confidence::High);
    let name = match spec_file_name(file.path@) {
        Some(n) => n,
        None => "json"@,
    };
    let span = document_span(file.text@);
    let b1 = spec_add_symbol(b0, name, name, SymbolKind::Module, span);
    let doc = symbol_id(b0, name, name, SymbolKind::Module, span);
    match parsed {
        Ok(v) => spec_json_value(b1, v, doc, span).partition,
        Err(e) => spec_add_diagnostic(
            b1,
            DiagnosticView { severity: Severity::Warning, message: "json parse failed: "@ + e, file_id: Some(file.file_id@), span: None },
        ).partition,
    }
}

fn json_get_exec<'a>(pairs: &'a Vec<(String, JsonValue)>, key: &str) -> (r: Option<&'a JsonValue>)
    ensures
        match r {
            Some(v) => json_get(pairs@, key@) == Some(*v),
            None => json_get(pairs@, key@) is None,
        },
{
    let mut i: usize = 0;
    assert(pairs@.skip(0) =~= pairs@);
    while i < pairs.len()
        invariant
            i <= pairs.len(),
            json_get(pairs@.skip(i as int), key@) == json_get(pairs@, key@),
        decreases pairs.len() - i,
    {
        assert(pairs@.skip(i as int)[0] == pairs@[i as int]);
        assert(pairs@.skip(i as int).drop_first() =~= pairs@.skip(i + 1));
        if crate::syntax::same_chars(pairs[i].0.as_str(), key) {
            return Some(&pairs[i].1);
        }
        i += 1;
    }
    None
}

fn collect_refs(v: &JsonValue, out: &mut Vec<String>)
    ensures
        string_views(final(out)@) == string_views(old(out)@) + json_refs(*v),
    decreases v,
{
    match v {
        JsonValue::Str(s) => {
            let c = chars_of(s.as_str());
            if crate::text::starts_with_str(&c, ".") || crate::text::starts_with_str(&c, "/") {
                let ghost before = out@;
                out.push(string_from(&c));
                assert(string_views(out@) =~= string_views(before) + seq![s@]);
            } else {
                assert(string_views(out@) =~= string_views(out@) + Seq::<Seq<char>>::empty());
            }
        },
        JsonValue::Array(items) => {
            let ghost start = string_views(out@);
            let mut k: usize = 0;
            assert(start =~= start + items_refs(items@, 0));
            while k < items.len()
                invariant
                    k <= items.len(),
                    string_views(out@) == start + items_refs(items@, k as int),
                    *v == JsonValue::Array(*items),
                decreases items.len() - k,
            {
                proof {
                    assert(decreases_to!(*v => (*v)->Array_0));
                    assert(decreases_to!(*items => items@));
                    assert(decreases_to!(items@ => items@[k as int]));
                }
                collect_refs(&items[k], out);
                assert(string_views(out@) =~= start + items_refs(items@, k + 1));
                k += 1;
            }
        },
        JsonValue::Object(pairs) => {
            let ghost start = string_views(out@);
            let mut k: usize = 0;
            assert(start =~= start + members_refs(pairs@, 0));
            while k < pairs.len()
                invariant
                    k <= pairs.len(),
                    string_views(out@) == start + members_refs(pairs@, k as int),
                    *v == JsonValue::Object(*pairs),
                decreases pairs.len() - k,
            {
                proof {
                    assert(decreases_to!(*v => (*v)->Object_0));
                    assert(decreases_to!(*pairs => pairs@));
                    assert(decreases_to!(pairs@ => pairs@[k as int]));
                    assert(decreases_to!(pairs@[k as int] => pairs@[k as int].1));
                }
                collect_refs(&pairs[k].1, out);
                assert(string_views(out@) =~= start + members_refs(pairs@, k + 1));
                k += 1;
            }
        },
        _ => {
            assert(string_views(out@) =~= string_views(out@) + Seq::<Seq<char>>::empty());
        },
    }
}

fn add_package_deps_exec(builder: &mut PartitionBuilder, doc: &NodeId, names: &Vec<String>, span: SourceSpan)
    requires
        old(builder).wf(),
    ensures
        final(builder).wf(),
        final(builder)@ == add_package_deps(old(builder)@, doc@, string_views(names@), span),
{
    let ghost start = builder@;
    let ghost nv = string_views(names@);
    let mut j: usize = 0;
    while j < names.len()
        invariant
            j <= names.len(),
            builder.wf(),
            nv == string_views(names@),
            builder@ == add_package_deps(start, doc@, nv.take(j as int), span),
        decreases names.len() - j,
    {
        assert(nv.take(j + 1).drop_last() =~= nv.take(j as int));
        assert(nv.take(j + 1).last() == names@[j as int]@);
        builder.add_import(names[j].as_str(), span);
        builder.add_dependency(doc, names[j].as_str(), span);
        j += 1;
    }
    assert(nv.take(names.len() as int) =~= nv);
}

fn add_doc_refs_exec(builder: &mut PartitionBuilder, doc: &NodeId, targets: &Vec<String>, span: SourceSpan)
    requires
        old(builder).wf(),
    ensures
        final(builder).wf(),
        final(builder)@ == add_doc_refs(old(builder)@, doc@, string_views(targets@), span),
{
    let ghost start = builder@;
    let ghost tv = string_views(targets@);
    let mut j: usize = 0;
    while j < targets.len()
        invariant
            j <= targets.len(),
            builder.wf(),
            tv == string_views(targets@),
            builder@ == add_doc_refs(start, doc@, tv.take(j as int), span),
        decreases targets.len() - j,
    {
        assert(tv.take(j + 1).drop_last() =~= tv.take(j as int));
        assert(tv.take(j + 1).last() == targets@[j as int]@);
        builder.add_reference(doc, targets[j].as_str(), span);
        j += 1;
    }
    assert(tv.take(targets.len() as int) =~= tv);
}

fn dependency_names_exec(v: &JsonValue) -> (r: Vec<String>)
    ensures
        string_views(r@) == dependency_names(*v),
{
    let mut out: Vec<String> = Vec::new();
    match v {
        JsonValue::Object(pairs) => {
            let mut k: usize = 0;
            while k < pairs.len()
                invariant
                    k <= pairs.len(),
                    string_views(out@) == pairs@.take(k as int).map_values(|p: (String, JsonValue)| p.0@),
                decreases pairs.len() - k,
            {
                let ghost before = out@;
                out.push(string_from(&chars_of(pairs[k].0.as_str())));
                assert(string_views(out@) =~= string_views(before).push(pairs@[k as int].0@));
                assert(pairs@.take(k + 1).map_values(|p: (String, JsonValue)| p.0@) =~= pairs@.take(k as int).map_values(|p: (String, JsonValue)| p.0@).push(pairs@[k as int].0@));
                k += 1;
            }
            assert(pairs@.take(pairs.len() as int) =~= pairs@);
        },
        JsonValue::Array(items) => {
            let mut k: usize = 0;
            assert(string_views(out@) =~= string_items(items@.take(0)));
            while k < items.len()
                invariant
                    k <= items.len(),
                    string_views(out@) == string_items(items@.take(k as int)),
                decreases items.len() - k,
            {
                assert(items@.take(k + 1).drop_last() =~= items@.take(k as int));
                let ghost before = out@;
                match &items[k] {
                    JsonValue::Str(s) => {
                        out.push(string_from(&chars_of(s.as_str())));
                        assert(string_views(out@) =~= string_views(before).push(s@));
                    },
                    _ => {
                        assert(string_views(out@) =~= string_views(before) + Seq::<Seq<char>>::empty());
                    },
                }
                k += 1;
            }
            assert(items@.take(items.len() as int) =~= items@);
        },
        _ => {
            assert(string_views(out@) =~= Seq::<Seq<char>>::empty());
        },
    }
    out
}

fn extract_dependencies(builder: &mut PartitionBuilder, pairs: &Vec<(String, JsonValue)>, doc: &NodeId, key: &str, span: SourceSpan)
    requires
        old(builder).wf(),
    ensures
        final(builder).wf(),
        final(builder)@ == key_deps(old(builder)@, pairs@, doc@, key@, span),
{
    if let Some(v) = json_get_exec(pairs, key) {
        let names = dependency_names_exec(v);
        add_package_deps_exec(builder, doc, &names, span);
    }
}

fn extract_value(builder: &mut PartitionBuilder, v: &JsonValue, doc: &NodeId, span: SourceSpan)
    requires
        old(builder).wf(),
    ensures
        final(builder).wf(),
        final(builder)@ == spec_json_value(old(builder)@, *v, doc@, span),
{
    if let JsonValue::Object(pairs) = v {
        if let Some(JsonValue::Str(n)) = json_get_exec(pairs, "name") {
            builder.add_symbol(n.as_str(), n.as_str(), SymbolKind::Module, span);
        }
        extract_dependencies(builder, pairs, doc, "dependencies", span);
        extract_dependencies(builder, pairs, doc, "devDependencies", span);
        extract_dependencies(builder, pairs, doc, "peerDependencies", span);
        extract_dependencies(builder, pairs, doc, "optionalDependencies", span);
        extract_dependencies(builder, pairs, doc, "bundledDependencies", span);
        extract_dependencies(builder, pairs, doc, "bundleDependencies", span);
        if let Some(imports) = json_get_exec(pairs, "imports") {
            if let JsonValue::Object(_) = imports {
                let mut targets: Vec<String> = Vec::new();
                collect_refs(imports, &mut targets);
                assert(string_views(targets@) =~= json_refs(*imports));
                add_doc_refs_exec(builder, doc, &targets, span);
            }
        }
        if let Some(exports) = json_get_exec(pairs, "exports") {
            let mut targets: Vec<String> = Vec::new();
            collect_refs(exports, &mut targets);
            assert(string_views(targets@) =~= json_refs(*exports));
            add_doc_refs_exec(builder, doc, &targets, span);
        }
    }
}

/// Builds the partition of a JSON file from what the parser made of its text.
pub fn json_partition(file: &SourceFile, parsed: Result<JsonValue, String>) -> (r: GraphPartition)
    requires
        text_fits(file.text@),
    ensures
        r@ == spec_json_partition(*file, parsed_view(parsed)),
{
    let mut builder = PartitionBuilder::new_with_quality(file, FactProvenance::StructuralScanner, Confidence::High);
    let src = chars_of(file.text.as_str());
    let name = match file_name_of(&chars_of(file.path.as_str())) {
        Some(n) => string_from(&n),
        None => String::from_str("json"),
    };
    let bytes = utf8_len(&src);
    let count = lines_of(&src).len();
    let last = if count > 1 { count } else { 1 };
    let span = SourceSpan::new(0, bytes as u32, LineColumn::new(1, 1), LineColumn::new(last as u32, 1));
    assert(span == document_span(file.text@));
    let doc = builder.add_symbol(name.as_str(), name.as_str(), SymbolKind::Module, span);
    match parsed {
        Ok(v) => extract_value(&mut builder, &v, &doc, span),
        Err(e) => {
            let message = string_from(&concat(&chars_of("json parse failed: "), &chars_of(e.as_str())));
            let d = Diagnostic::warning(message, Some(file.file_id.clone()), None);
            builder.add_diagnostic(d);
        },
    }
    builder.finish()
}

/// Everything of a partition but the time its extraction took.
pub open spec fn same_but_extraction_time(p: PartitionView, q: PartitionView) -> bool {
    p == PartitionView {
        metrics: crate::model::PartitionMetrics { extraction_time_micros: p.metrics.extraction_time_micros, ..q.metrics },
        ..q
    }
}

/// Extracts a JSON file: parses its text with `serde_json` and builds the
/// partition from the result, timing the work.
pub fn extract_json(file: &SourceFile) -> (r: GraphPartition)
    requires
        text_fits(file.text@),
    ensures
        same_but_extraction_time(r@, spec_json_partition(*file, json_parse_result(file.text@))),
{
    let started = crate::syntax::instant_now();
    let parsed = parse_json(file.text.as_str());
    let mut partition = json_partition(file, parsed);
    let elapsed = crate::syntax::instant_elapsed(&started);
    partition.metrics.extraction_time_micros = crate::syntax::duration_micros(&elapsed) as u64;
    partition
}

proof fn lemma_package_deps_shape(b: BuilderView, doc: Seq<char>, names: Seq<Seq<char>>, span: SourceSpan)
    requires
        crate::helpers::builder_shape(b),
    ensures
        crate::helpers::builder_shape(add_package_deps(b, doc, names, span)),
        crate::helpers::keeps_frame(b, add_package_deps(b, doc, names, span)),
    decreases names.len(),
{
    if names.len() > 0 {
        let x = names.last();
        let b1 = add_package_deps(b, doc, names.drop_last(), span);
        lemma_package_deps_shape(b, doc, names.drop_last(), span);
        let b2 = crate::helpers::build_step(b1, crate::helpers::BuildStep::Import(x, span));
        crate::helpers::lemma_step(b1, crate::helpers::BuildStep::Import(x, span));
        crate::helpers::lemma_step(b2, crate::helpers::BuildStep::Dependency(doc, x, span));
        crate::helpers::lemma_frame_trans(b, b1, b2);
        crate::helpers::lemma_frame_trans(b, b2, add_package_deps(b, doc, names, span));
    }
}

proof fn lemma_doc_refs_shape(b: BuilderView, doc: Seq<char>, targets: Seq<Seq<char>>, span: SourceSpan)
    requires
        crate::helpers::builder_shape(b),
    ensures
        crate::helpers::builder_shape(add_doc_refs(b, doc, targets, span)),
        crate::helpers::keeps_frame(b, add_doc_refs(b, doc, targets, span)),
    decreases targets.len(),
{
    if targets.len() > 0 {
        let b1 = add_doc_refs(b, doc, targets.drop_last(), span);
        lemma_doc_refs_shape(b, doc, targets.drop_last(), span);
        crate::helpers::lemma_step(b1, crate::helpers::BuildStep::Reference(doc, targets.last(), span));
        crate::helpers::lemma_frame_trans(b, b1, add_doc_refs(b, doc, targets, span));
    }
}

proof fn lemma_key_deps_shape(b: BuilderView, pairs: Seq<(String, JsonValue)>, doc: Seq<char>, key: Seq<char>, span: SourceSpan)
    requires
        crate::helpers::builder_shape(b),
    ensures
        crate::helpers::builder_shape(key_deps(b, pairs, doc, key, span)),
        crate::helpers::keeps_frame(b, key_deps(b, pairs, doc, key, span)),
{
    match json_get(pairs, key) {
        Some(v) => lemma_package_deps_shape(b, doc, dependency_names(v), span),
        None => {},
    }
}

/// The id of the package node a manifest's dependency on `name` makes.
pub open spec fn package_id(b: BuilderView, name: Seq<char>) -> Seq<char> {
    crate::helpers::external_node(b, crate::model::NodeKind::Package, name, None).id
}

/// The id of the `DependsOn` edge from the document `doc` to the package `name`.
pub open spec fn dependency_edge_id(b: BuilderView, doc: Seq<char>, name: Seq<char>, span: SourceSpan) -> Seq<char> {
    crate::helpers::quality_edge(b, EdgeKind::DependsOn, doc, package_id(b, name), Some(span)).id
}

proof fn lemma_package_deps_has(b: BuilderView, doc: Seq<char>, names: Seq<Seq<char>>, span: SourceSpan, x: Seq<char>)
    requires
        crate::helpers::builder_shape(b),
        names.contains(x),
    ensures
        crate::helpers::has_node_id(add_package_deps(b, doc, names, span).partition.nodes, package_id(b, x)),
        crate::helpers::has_edge_id(add_package_deps(b, doc, names, span).partition.edges, dependency_edge_id(b, doc, x, span)),
    decreases names.len(),
{
    let y = names.last();
    let b1 = add_package_deps(b, doc, names.drop_last(), span);
    lemma_package_deps_shape(b, doc, names.drop_last(), span);
    let b2 = crate::helpers::build_step(b1, crate::helpers::BuildStep::Import(y, span));
    crate::helpers::lemma_step(b1, crate::helpers::BuildStep::Import(y, span));
    let b3 = crate::helpers::build_step(b2, crate::helpers::BuildStep::Dependency(doc, y, span));
    crate::helpers::lemma_step(b2, crate::helpers::BuildStep::Dependency(doc, y, span));
    crate::helpers::lemma_frame_trans(b, b1, b2);
    assert(b3 == add_package_deps(b, doc, names, span));
    if y == x {
        let be = crate::helpers::spec_add_external(b2, crate::model::NodeKind::Package, x, None);
        crate::helpers::lemma_add_external(b2, crate::model::NodeKind::Package, x, None);
        crate::helpers::lemma_add_edge(be, EdgeKind::DependsOn, doc, package_id(b2, x), Some(span));
        crate::helpers::lemma_frame_keeps_ids(be, b3, package_id(b2, x));
        assert(package_id(b2, x) == package_id(b, x));
        assert(dependency_edge_id(b2, doc, x, span) == dependency_edge_id(b, doc, x, span));
        assert(crate::helpers::quality_edge(be, EdgeKind::DependsOn, doc, package_id(b2, x), Some(span)).id == dependency_edge_id(b, doc, x, span));
    } else {
        let i = choose|i: int| 0 <= i < names.len() && names[i] == x;
        assert(names.drop_last()[i] == x);
        lemma_package_deps_has(b, doc, names.drop_last(), span, x);
        crate::helpers::lemma_frame_trans(b1, b2, b3);
        crate::helpers::lemma_frame_keeps_ids(b1, b3, package_id(b, x));
        crate::helpers::lemma_frame_keeps_ids(b1, b3, dependency_edge_id(b, doc, x, span));
    }
}

/// A manifest object's `devDependencies` count: every package named there (a
/// member name of an object, or a string of an array) has its package node, and
/// the document has its `DependsOn` edge to it, in the partition of the file.
pub proof fn dev_dependencies_are_dependencies(file: SourceFile, pairs: Vec<(String, JsonValue)>, x: Seq<char>)
    requires
        json_get(pairs@, "devDependencies"@) matches Some(d) && dependency_names(d).contains(x),
    ensures
        ({
            let b0 = spec_new_builder(file, FactProvenance::StructuralScanner, Confidence::High);
            let name = match spec_file_name(file.path@) {
                Some(n) => n,
                None => "json"@,
            };
            let span = document_span(file.text@);
            let doc = symbol_id(b0, name, name, SymbolKind::Module, span);
            let p = spec_json_partition(file, Ok(JsonValue::Object(pairs)));
            &&& crate::helpers::has_node_id(p.nodes, package_id(b0, x))
            &&& crate::helpers::has_edge_id(p.edges, dependency_edge_id(b0, doc, x, span))
        }),
{
    let b0 = spec_new_builder(file, FactProvenance::StructuralScanner, Confidence::High);
    let name = match spec_file_name(file.path@) {
        Some(n) => n,
        None => "json"@,
    };
    let span = document_span(file.text@);
    let doc = symbol_id(b0, name, name, SymbolKind::Module, span);
    let b1 = spec_add_symbol(b0, name, name, SymbolKind::Module, span);
    assert(crate::helpers::builder_shape(b0));
    crate::helpers::lemma_step(b0, crate::helpers::BuildStep::Symbol(name, name, SymbolKind::Module, span));
    let v = JsonValue::Object(pairs);
    let c1 = match json_get(pairs@, "name"@) {
        Some(JsonValue::Str(n)) => spec_add_symbol(b1, n@, n@, SymbolKind::Module, span),
        _ => b1,
    };
    match json_get(pairs@, "name"@) {
        Some(JsonValue::Str(n)) => {
            crate::helpers::lemma_step(b1, crate::helpers::BuildStep::Symbol(n@, n@, SymbolKind::Module, span));
        },
        _ => {},
    }
    crate::helpers::lemma_frame_trans(b0, b1, c1);
    let c2 = key_deps(c1, pairs@, doc, "dependencies"@, span);
    lemma_key_deps_shape(c1, pairs@, doc, "dependencies"@, span);
    crate::helpers::lemma_frame_trans(b0, c1, c2);
    let d = json_get(pairs@, "devDependencies"@)->0;
    let c3 = key_deps(c2, pairs@, doc, "devDependencies"@, span);
    lemma_package_deps_has(c2, doc, dependency_names(d), span, x);
    lemma_key_deps_shape(c2, pairs@, doc, "devDependencies"@, span);
    assert(package_id(c2, x) == package_id(b0, x));
    assert(dependency_edge_id(c2, doc, x, span) == dependency_edge_id(b0, doc, x, span));
    let c4 = key_deps(c3, pairs@, doc, "peerDependencies"@, span);
    lemma_key_deps_shape(c3, pairs@, doc, "peerDependencies"@, span);
    let c5 = key_deps(c4, pairs@, doc, "optionalDependencies"@, span);
    lemma_key_deps_shape(c4, pairs@, doc, "optionalDependencies"@, span);
    let c6 = key_deps(c5, pairs@, doc, "bundledDependencies"@, span);
    lemma_key_deps_shape(c5, pairs@, doc, "bundledDependencies"@, span);
    let c7 = key_deps(c6, pairs@, doc, "bundleDependencies"@, span);
    lemma_key_deps_shape(c6, pairs@, doc, "bundleDependencies"@, span);
    crate::helpers::lemma_frame_trans(c3, c4, c5);
    crate::helpers::lemma_frame_trans(c3, c5, c6);
    crate::helpers::lemma_frame_trans(c3, c6, c7);
    let c8 = match json_get(pairs@, "imports"@) {
        Some(JsonValue::Object(m)) => add_doc_refs(c7, doc, json_refs(JsonValue::Object(m)), span),
        _ => c7,
    };
    match json_get(pairs@, "imports"@) {
        Some(JsonValue::Object(m)) => lemma_doc_refs_shape(c7, doc, json_refs(JsonValue::Object(m)), span),
        _ => {},
    }
    crate::helpers::lemma_frame_trans(c3, c7, c8);
    let c9 = match json_get(pairs@, "exports"@) {
        Some(e) => add_doc_refs(c8, doc, json_refs(e), span),
        None => c8,
    };
    match json_get(pairs@, "exports"@) {
        Some(e) => lemma_doc_refs_shape(c8, doc, json_refs(e), span),
        None => {},
    }
    crate::helpers::lemma_frame_trans(c3, c8, c9);
    assert(c9 == spec_json_value(b1, v, doc, span));
    crate::helpers::lemma_frame_keeps_ids(c3, c9, package_id(b0, x));
    crate::helpers::lemma_frame_keeps_ids(c3, c9, dependency_edge_id(b0, doc, x, span));
}

} // verus!
