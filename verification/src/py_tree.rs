use crate::helpers::{
    after_last_dot, after_last_dot_chars, spec_add_import, spec_add_link, spec_add_symbol,
    spec_new_builder, symbol_id, BuilderView, PartitionBuilder,
};
use crate::model::{EdgeKind, GraphPartition, PartitionView, SourceFile, SymbolKind};
use crate::python::{scanner_extract_python, spec_scanner_extract_python, text_fits};
use crate::quality::{Confidence, FactProvenance};
use crate::rust_lang::{
    field_text, field_text_exec, non_empty_trimmed, non_empty_trimmed_exec, scope_views, Scope,
    ScopeView,
};
use crate::syntax::{
    child_by_field_name, children_follow, field_child, kind_is, node_span, node_text,
    node_text_spec, spec_node_span, tree_wf, SyntaxNode, SyntaxNodeView, SyntaxTree,
};
use crate::text::{chars_of, string_from};
use crate::ts_tree::{qualify_dot, qualify_dot_exec};
use vstd::prelude::*;
use vstd::utf8::encode_utf8;

verus! {

/// The kind of symbol a scope-opening node declares under the scope `cur`: a
/// class, or a function (a method directly inside a class).
pub open spec fn py_scope_kind(k: Seq<char>, cur: ScopeView) -> Option<SymbolKind> {
    if k == "class_definition"@ {
        Some(SymbolKind::Class)
    } else if k == "function_definition"@ {
        Some(if cur.kind == SymbolKind::Class { SymbolKind::Method } else { SymbolKind::Function })
    } else {
        None
    }
}

/// The name a call goes to: an identifier, the attribute of an attribute
/// access, or else the trimmed text after the callee's last `.`.
pub open spec fn py_call_name(t: Seq<SyntaxNodeView>, f: int, src: Seq<char>) -> Option<Seq<char>> {
    if t[f].kind == "identifier"@ {
        node_text_spec(t, f, src)
    } else if t[f].kind == "attribute"@ {
        field_text(t, f, "attribute"@, src)
    } else {
        non_empty_trimmed(
            match node_text_spec(t, f, src) {
                Some(x) => Some(after_last_dot(x)),
                None => None,
            },
        )
    }
}

/// The module an imported name stands for: a dotted name itself, or the name of
/// an aliased import.
pub open spec fn imported_module(t: Seq<SyntaxNodeView>, c: int, src: Seq<char>) -> Option<Seq<char>> {
    if t[c].kind == "dotted_name"@ {
        node_text_spec(t, c, src)
    } else if t[c].kind == "aliased_import"@ {
        field_text(t, c, "name"@, src)
    } else {
        None
    }
}

/// The builder after importing the modules named by the children `k..` of an
/// `import` statement that stand under the field `name`.
pub open spec fn import_names(t: Seq<SyntaxNodeView>, i: int, k: int, src: Seq<char>, b: BuilderView) -> BuilderView
    decreases t[i].child_count - k,
{
    if !(0 <= i < t.len()) || !children_follow(t, i) || !(0 <= k < t[i].child_count) {
        b
    } else {
        let c = t[i].first_child + k;
        let b1 = if t[c].field == Some("name"@) {
            match imported_module(t, c, src) {
                Some(m) => spec_add_import(b, m, spec_node_span(t[i])),
                None => b,
            }
        } else {
            b
        };
        import_names(t, i, k + 1, src, b1)
    }
}

/// What a node that opens no scope adds before its children are visited: the
/// modules of an import, or a call.
pub open spec fn py_effect(t: Seq<SyntaxNodeView>, i: int, src: Seq<char>, cur: ScopeView, b: BuilderView) -> BuilderView {
    let k = t[i].kind;
    let span = spec_node_span(t[i]);
    if k == "import_statement"@ {
        import_names(t, i, 0, src, b)
    } else if k == "import_from_statement"@ {
        match field_text(t, i, "module_name"@, src) {
            Some(m) => spec_add_import(b, m, span),
            None => b,
        }
    } else if k == "call"@ {
        match field_child(t, i, "function"@) {
            Some(f) => match py_call_name(t, f, src) {
                Some(callee) => spec_add_link(b, EdgeKind::Calls, cur.node, callee, span),
                None => b,
            },
            None => b,
        }
    } else {
        b
    }
}

/// The builder after the Python visitor has walked node `i` under the scopes `sc`.
pub open spec fn py_visit(t: Seq<SyntaxNodeView>, i: int, src: Seq<char>, sc: Seq<ScopeView>, b: BuilderView) -> BuilderView
    decreases t.len() - i, 1int, 0int,
{
    if !(0 <= i < t.len()) || !children_follow(t, i) || sc.len() == 0 {
        b
    } else {
        let span = spec_node_span(t[i]);
        let cur = sc.last();
        match py_scope_kind(t[i].kind, cur) {
            Some(kind) => match field_text(t, i, "name"@, src) {
                Some(name) => {
                    let q = qualify_dot(cur.qualified, name);
                    let s = ScopeView { node: symbol_id(b, name, q, kind, span), qualified: q, kind };
                    py_children(t, i, 0, src, sc.push(s), spec_add_symbol(b, name, q, kind, span))
                },
                None => b,
            },
            None => py_children(t, i, 0, src, sc, py_effect(t, i, src, cur, b)),
        }
    }
}

/// The builder after the Python visitor has walked the named children `k..` of `i`.
pub open spec fn py_children(t: Seq<SyntaxNodeView>, i: int, k: int, src: Seq<char>, sc: Seq<ScopeView>, b: BuilderView) -> BuilderView
    decreases t.len() - i, 0int, t[i].child_count - k,
{
    if !(0 <= i < t.len()) || !children_follow(t, i) || !(0 <= k < t[i].child_count) {
        b
    } else {
        let c = t[i].first_child + k;
        let b1 = if t[c].named {
            py_visit(t, c, src, sc, b)
        } else {
            b
        };
        py_children(t, i, k + 1, src, sc, b1)
    }
}

fn py_scope_kind_exec(n: &SyntaxNode, cur: &Scope) -> (r: Option<SymbolKind>)
    ensures
        r == py_scope_kind(n@.kind, cur@),
{
    if kind_is(n, "class_definition") {
        Some(SymbolKind::Class)
    } else if kind_is(n, "function_definition") {
        Some(if cur.kind == SymbolKind::Class { SymbolKind::Method } else { SymbolKind::Function })
    } else {
        None
    }
}

fn call_name(tree: &SyntaxTree, f: usize, src: &[char]) -> (r: Option<Vec<char>>)
    requires
        tree_wf(tree@),
        f < tree@.len(),
        encode_utf8(src@).len() <= usize::MAX,
    ensures
        match r {
            Some(v) => py_call_name(tree@, f as int, src@) == Some(v@),
            None => py_call_name(tree@, f as int, src@) is None,
        },
{
    let n = &tree.nodes[f];
    assert(tree@[f as int] == n@);
    if kind_is(n, "identifier") {
        node_text(tree, f, src)
    } else if kind_is(n, "attribute") {
        field_text_exec(tree, f, "attribute", src)
    } else {
        let tail = match node_text(tree, f, src) {
            Some(x) => Some(after_last_dot_chars(&x)),
            None => None,
        };
        non_empty_trimmed_exec(tail)
    }
}

fn imported_module_exec(tree: &SyntaxTree, c: usize, src: &[char]) -> (r: Option<Vec<char>>)
    requires
        tree_wf(tree@),
        c < tree@.len(),
        encode_utf8(src@).len() <= usize::MAX,
    ensures
        match r {
            Some(v) => imported_module(tree@, c as int, src@) == Some(v@),
            None => imported_module(tree@, c as int, src@) is None,
        },
{
    let n = &tree.nodes[c];
    assert(tree@[c as int] == n@);
    if kind_is(n, "dotted_name") {
        node_text(tree, c, src)
    } else if kind_is(n, "aliased_import") {
        field_text_exec(tree, c, "name", src)
    } else {
        None
    }
}

fn import_names_exec(tree: &SyntaxTree, i: usize, src: &[char], builder: &mut PartitionBuilder)
    requires
        tree_wf(tree@),
        i < tree@.len(),
        encode_utf8(src@).len() <= usize::MAX,
        old(builder).wf(),
    ensures
        final(builder).wf(),
        final(builder)@ == import_names(tree@, i as int, 0, src@, old(builder)@),
{
    let ghost t = tree@;
    let ghost b0 = builder@;
    let n = &tree.nodes[i];
    assert(t[i as int] == n@);
    assert(children_follow(t, i as int));
    let span = node_span(n);
    let first = n.first_child;
    let count = n.child_count;
    let total = tree.nodes.len();
    let mut k: usize = 0;
    while k < count
        invariant
            t == tree@,
            tree_wf(t),
            i < t.len(),
            total == t.len(),
            children_follow(t, i as int),
            first == t[i as int].first_child,
            count == t[i as int].child_count,
            span == spec_node_span(t[i as int]),
            encode_utf8(src@).len() <= usize::MAX,
            k <= count,
            builder.wf(),
            import_names(t, i as int, k as int, src@, builder@) == import_names(t, i as int, 0, src@, b0),
        decreases count - k,
    {
        let c = first + k;
        let child = &tree.nodes[c];
        assert(t[c as int] == child@);
        let is_name = match &child.field {
            Some(f) => crate::syntax::same_chars(f.as_str(), "name"),
            None => false,
        };
        if is_name {
            if let Some(m) = imported_module_exec(tree, c, src) {
                let ms = string_from(&m);
                builder.add_import(ms.as_str(), span);
            }
        }
        k += 1;
    }
}

fn py_effect_exec(tree: &SyntaxTree, i: usize, src: &[char], cur: &Scope, builder: &mut PartitionBuilder)
    requires
        tree_wf(tree@),
        i < tree@.len(),
        encode_utf8(src@).len() <= usize::MAX,
        old(builder).wf(),
    ensures
        final(builder).wf(),
        final(builder)@ == py_effect(tree@, i as int, src@, cur@, old(builder)@),
{
    let n = &tree.nodes[i];
    assert(tree@[i as int] == n@);
    let span = node_span(n);
    if kind_is(n, "import_statement") {
        import_names_exec(tree, i, src, builder);
    } else if kind_is(n, "import_from_statement") {
        if let Some(m) = field_text_exec(tree, i, "module_name", src) {
            let ms = string_from(&m);
            builder.add_import(ms.as_str(), span);
        }
    } else if kind_is(n, "call") {
        if let Some(f) = child_by_field_name(tree, i, "function") {
            if let Some(callee) = call_name(tree, f, src) {
                let cs = string_from(&callee);
                builder.add_call(&cur.node, cs.as_str(), span);
            }
        }
    }
}

fn visit_node(tree: &SyntaxTree, i: usize, src: &[char], builder: &mut PartitionBuilder, scopes: &mut Vec<Scope>)
    requires
        tree_wf(tree@),
        i < tree@.len(),
        encode_utf8(src@).len() <= usize::MAX,
        old(builder).wf(),
        old(scopes)@.len() >= 1,
    ensures
        final(builder).wf(),
        scope_views(final(scopes)@) == scope_views(old(scopes)@),
        final(builder)@ == py_visit(tree@, i as int, src@, scope_views(old(scopes)@), old(builder)@),
    decreases tree@.len() - i, 1int,
{
    let ghost t = tree@;
    let ghost sc = scope_views(scopes@);
    let n = &tree.nodes[i];
    assert(t[i as int] == n@);
    assert(children_follow(t, i as int));
    let span = node_span(n);
    let last = scopes.len() - 1;
    assert(sc.last() == scopes@[last as int]@);
    match py_scope_kind_exec(n, &scopes[last]) {
        Some(kind) => {
            if let Some(name) = field_text_exec(tree, i, "name", src) {
                let q = qualify_dot_exec(&scopes[last].qualified_name, &name);
                let ns = string_from(&name);
                let id = builder.add_symbol(ns.as_str(), q.as_str(), kind, span);
                let ghost before = scopes@;
                scopes.push(Scope { node: id, qualified_name: q, kind });
                assert(scope_views(scopes@) =~= sc.push(scopes@[before.len() as int]@));
                visit_children(tree, i, src, builder, scopes);
                let ghost pre_pop = scopes@;
                scopes.pop();
                assert(scope_views(scopes@) =~= scope_views(pre_pop).drop_last());
                assert(scope_views(scopes@) =~= sc);
            }
        },
        None => {
            py_effect_exec(tree, i, src, &scopes[last], builder);
            visit_children(tree, i, src, builder, scopes);
        },
    }
}

fn visit_children(tree: &SyntaxTree, i: usize, src: &[char], builder: &mut PartitionBuilder, scopes: &mut Vec<Scope>)
    requires
        tree_wf(tree@),
        i < tree@.len(),
        encode_utf8(src@).len() <= usize::MAX,
        old(builder).wf(),
        old(scopes)@.len() >= 1,
    ensures
        final(builder).wf(),
        scope_views(final(scopes)@) == scope_views(old(scopes)@),
        final(builder)@ == py_children(tree@, i as int, 0, src@, scope_views(old(scopes)@), old(builder)@),
    decreases tree@.len() - i, 0int,
{
    let ghost t = tree@;
    let ghost sc = scope_views(scopes@);
    let ghost b0 = builder@;
    let n = &tree.nodes[i];
    assert(t[i as int] == n@);
    assert(children_follow(t, i as int));
    let first = n.first_child;
    let count = n.child_count;
    let total = tree.nodes.len();
    let mut k: usize = 0;
    while k < count
        invariant
            t == tree@,
            tree_wf(t),
            i < t.len(),
            total == t.len(),
            children_follow(t, i as int),
            first == t[i as int].first_child,
            count == t[i as int].child_count,
            encode_utf8(src@).len() <= usize::MAX,
            k <= count,
            builder.wf(),
            scopes@.len() >= 1,
            scope_views(scopes@) == sc,
            py_children(t, i as int, k as int, src@, sc, builder@) == py_children(t, i as int, 0, src@, sc, b0),
        decreases count - k,
    {
        let c = first + k;
        let child = &tree.nodes[c];
        assert(t[c as int] == child@);
        if child.named {
            visit_node(tree, c, src, builder, scopes);
        }
        k += 1;
    }
}

/// The partition the Python tree visitor builds from a parsed tree: the file's
/// module symbol first, then the classes, functions, imports and calls under
/// it, resolved.
pub open spec fn spec_py_tree_partition(file: SourceFile, t: Seq<SyntaxNodeView>, diagnostics: Seq<crate::diagnostics::DiagnosticView>, parse_time_micros: u64) -> PartitionView {
    let b0 = crate::helpers::spec_add_diagnostics(spec_new_builder(file, FactProvenance::TreeSitter, Confidence::High), diagnostics);
    let module_name = match crate::paths::spec_file_stem(file.path@) {
        Some(stem) => stem,
        None => "module"@,
    };
    let span = spec_node_span(t[0]);
    let b1 = spec_add_symbol(b0, module_name, module_name, SymbolKind::Module, span);
    let scope = ScopeView { node: symbol_id(b0, module_name, module_name, SymbolKind::Module, span), qualified: module_name, kind: SymbolKind::Module };
    let p = crate::resolve::spec_resolve(py_visit(t, 0, file.text@, seq![scope], b1).partition);
    PartitionView { metrics: crate::model::PartitionMetrics { parse_time_micros, ..p.metrics }, ..p }
}

/// Builds the partition of a Python file from its parsed tree.
pub fn py_tree_partition(file: &SourceFile, report: crate::syntax::ParseReport) -> (r: GraphPartition)
    requires
        tree_wf(report.tree@),
    ensures
        r@ == spec_py_tree_partition(*file, report.tree@, crate::model::diagnostic_views(report.diagnostics@), report.parse_time_micros),
{
    let src = chars_of(file.text.as_str());
    let _bytes = file.text.as_str().as_bytes().len();
    let mut builder = PartitionBuilder::new_with_quality(file, FactProvenance::TreeSitter, Confidence::High);
    let crate::syntax::ParseReport { tree, diagnostics, parse_time_micros } = report;
    builder.add_diagnostics(diagnostics);
    let module_name = match crate::paths::file_stem_of(&chars_of(file.path.as_str())) {
        Some(stem) => string_from(&stem),
        None => String::from_str("module"),
    };
    let root = &tree.nodes[0];
    assert(tree@[0] == root@);
    let id = builder.add_symbol(module_name.as_str(), module_name.as_str(), SymbolKind::Module, node_span(root));
    let mut scopes: Vec<Scope> = Vec::new();
    scopes.push(Scope { node: id, qualified_name: module_name, kind: SymbolKind::Module });
    assert(scope_views(scopes@) =~= seq![scopes@[0]@]);
    visit_node(&tree, 0, &src, &mut builder, &mut scopes);
    let mut partition = crate::resolve::resolve_partition(builder.finish());
    partition.metrics.parse_time_micros = parse_time_micros;
    partition
}

/// What a Python extraction gives when the parse was skipped with `message`: the
/// line scanner's partition when falling back, else an empty one, with the warning.
pub open spec fn py_skipped(file: SourceFile, fallback: bool, message: Seq<char>) -> PartitionView {
    let d = crate::syntax::skip_diagnostic_view(message, file.file_id@);
    if fallback {
        crate::syntax::with_diagnostic(spec_scanner_extract_python(file), d)
    } else {
        crate::syntax::with_diagnostic(crate::syntax::empty_partition_view(file), d)
    }
}

/// Whether `p` is what the Python tree visitor builds from the Python grammar's
/// parse of `file`, with that parse's syntax diagnostics.
pub open spec fn is_py_tree_outcome(file: SourceFile, p: PartitionView) -> bool {
    exists|t: Seq<SyntaxNodeView>, micros: u64|
        tree_wf(t) && crate::syntax::represents(t, crate::syntax::parse_tree(crate::syntax::GrammarId::Python, file.text@)) && p == #[trigger] spec_py_tree_partition(
            file,
            t,
            crate::syntax::spec_parse_diagnostics(t, file.text@, file.file_id@),
            micros,
        )
}

/// What a tree-sitter extraction of a Python file may give: a file over the size
/// limit is skipped with its size; otherwise the partition comes from a parse, or
/// the parse ran out of its time limit `timeout` (none when it is zero), or the
/// grammar was refused.
pub open spec fn py_tree_sitter_outcome_within(file: SourceFile, limit: usize, timeout: u64, fallback: bool, p: PartitionView) -> bool {
    let len = encode_utf8(file.text@).len();
    &&& len > limit ==> p == py_skipped(
        file,
        fallback,
        crate::syntax::skip_message_of("Python"@, 0, len, limit as nat, Seq::empty()),
    )
    &&& len <= limit ==> {
        ||| is_py_tree_outcome(file, p)
        ||| timeout != 0 && p == py_skipped(file, fallback, crate::syntax::skip_message_of("Python"@, 1, 0, 0, Seq::empty()))
        ||| exists|e: Seq<char>| p == py_skipped(file, fallback, crate::syntax::skip_message_of("Python"@, 2, 0, 0, e))
    }
}

/// The same, under the default size limit.
pub open spec fn py_tree_sitter_outcome(file: SourceFile, fallback: bool, p: PartitionView) -> bool {
    py_tree_sitter_outcome_within(file, crate::syntax::DEFAULT_MAX_FILE_BYTES, crate::syntax::DEFAULT_PARSE_TIMEOUT_MICROS, fallback, p)
}

/// Extracts a Python file with tree-sitter. A file over the size limit, a parse
/// that runs out of time or a grammar the parser refuses is skipped with a
/// warning: with `fallback`, onto the line scanner's partition, else onto an
/// empty one.
pub fn tree_sitter_extract_python(file: &SourceFile, limits: crate::syntax::ParseLimits, fallback: bool) -> (r: GraphPartition)
    requires
        text_fits(file.text@),
    ensures
        py_tree_sitter_outcome_within(*file, limits.max_file_bytes, limits.parse_timeout_micros, fallback, r@),
{
    let pool = crate::syntax::ParserPool::new(crate::syntax::GrammarId::Python);
    match pool.parse(file.text.as_str(), &file.file_id, limits) {
        Ok(report) => {
            let ghost t = report.tree@;
            let ghost micros = report.parse_time_micros;
            let r = py_tree_partition(file, report);
            assert(tree_wf(t) && crate::syntax::represents(t, crate::syntax::parse_tree(pool.grammar, file.text@)) && r@ == spec_py_tree_partition(*file, t, crate::syntax::spec_parse_diagnostics(t, file.text@, file.file_id@), micros));
            r
        },
        Err(skip) => {
            let base = if fallback {
                scanner_extract_python(file)
            } else {
                GraphPartition::empty(file)
            };
            proof {
                if !fallback {
                    assert(base@.nodes =~= Seq::<crate::model::NodeView>::empty());
                    assert(base@.edges =~= Seq::<crate::model::EdgeView>::empty());
                    assert(base@.diagnostics =~= Seq::<crate::diagnostics::DiagnosticView>::empty());
                }
            }
            let ghost sk = skip;
            let r = crate::syntax::partition_with_skip(base, skip, file, "Python");
            proof {
                match sk {
                    crate::syntax::ParseSkip::Parser(e) => {
                        assert(r@ == py_skipped(*file, fallback, crate::syntax::skip_message_of("Python"@, 2, 0, 0, e@)));
                    },
                    _ => {},
                }
            }
            r
        },
    }
}

/// Extracts a Python file the way `mode` asks: the line scanner alone,
/// tree-sitter alone, or tree-sitter falling back to the scanner.
pub fn extract_python_with_options(file: &SourceFile, options: crate::syntax::ExtractionOptions, mode: crate::syntax::ExtractionMode) -> (r: GraphPartition)
    requires
        text_fits(file.text@),
    ensures
        match mode {
            crate::syntax::ExtractionMode::ScannerOnly => r@ == spec_scanner_extract_python(*file),
            crate::syntax::ExtractionMode::TreeSitterOnly => py_tree_sitter_outcome_within(*file, options.parse_limits.max_file_bytes, options.parse_limits.parse_timeout_micros, false, r@),
            _ => py_tree_sitter_outcome_within(*file, options.parse_limits.max_file_bytes, options.parse_limits.parse_timeout_micros, true, r@),
        },
{
    match mode {
        crate::syntax::ExtractionMode::ScannerOnly => scanner_extract_python(file),
        crate::syntax::ExtractionMode::TreeSitterOnly => tree_sitter_extract_python(file, options.parse_limits, false),
        _ => tree_sitter_extract_python(file, options.parse_limits, true),
    }
}

/// Extracts a Python file in the default mode: tree-sitter, falling back to the
/// line scanner.
pub fn extract_python(file: &SourceFile) -> (r: GraphPartition)
    requires
        text_fits(file.text@),
    ensures
        py_tree_sitter_outcome(*file, true, r@),
{
    extract_python_with_options(file, crate::syntax::ExtractionOptions::default(), crate::syntax::ExtractionMode::TreeSitterWithFallback)
}

} // verus!
