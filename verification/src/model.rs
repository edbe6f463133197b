use crate::diagnostics::{Diagnostic, DiagnosticView};
use crate::ids::{id_text, str_views, blake3_hex, blake3_hex_of, EdgeId, FileId, NodeId, RepositoryId};
use crate::language::{language_key, Language};
use crate::paths::{components, join_slash};
use crate::quality::{Confidence, FactProvenance};
use crate::span::SourceSpan;
use crate::text::decimal;
use vstd::prelude::*;
use vstd::utf8::encode_utf8;

verus! {

#[derive(Clone, Copy, Debug, PartialEq, Eq, Structural, Hash)]
pub enum SymbolKind {
    Function,
    Method,
    Class,
    Interface,
    TypeAlias,
    Enum,
    Variable,
    Module,
    Field,
    Unknown,
}

#[derive(Clone, Copy, Debug, PartialEq, Eq, Structural, Hash)]
pub enum NodeKind {
    Repository,
    Directory,
    File,
    Module,
    Symbol,
    Import,
    Export,
    Package,
    ExternalSymbol,
    Span,
    Chunk,
}

#[derive(Clone, Copy, Debug, PartialEq, Eq, Structural, Hash)]
pub enum EdgeKind {
    Contains,
    Defines,
    Imports,
    Exports,
    Calls,
    References,
    Extends,
    Implements,
    Overrides,
    DependsOn,
    Tests,
}

/// The key of each node kind that goes into node ids.
pub open spec fn node_kind_key(kind: NodeKind) -> Seq<char> {
    match kind {
        NodeKind::Repository => "repository"@,
        NodeKind::Directory => "directory"@,
        NodeKind::File => "file"@,
        NodeKind::Module => "module"@,
        NodeKind::Symbol => "symbol"@,
        NodeKind::Import => "import"@,
        NodeKind::Export => "export"@,
        NodeKind::Package => "package"@,
        NodeKind::ExternalSymbol => "external-symbol"@,
        NodeKind::Span => "span"@,
        NodeKind::Chunk => "chunk"@,
    }
}

/// The key of each edge kind that goes into edge ids.
pub open spec fn edge_kind_key(kind: EdgeKind) -> Seq<char> {
    match kind {
        EdgeKind::Contains => "contains"@,
        EdgeKind::Defines => "defines"@,
        EdgeKind::Imports => "imports"@,
        EdgeKind::Exports => "exports"@,
        EdgeKind::Calls => "calls"@,
        EdgeKind::References => "references"@,
        EdgeKind::Extends => "extends"@,
        EdgeKind::Implements => "implements"@,
        EdgeKind::Overrides => "overrides"@,
        EdgeKind::DependsOn => "depends-on"@,
        EdgeKind::Tests => "tests"@,
    }
}

impl NodeKind {
    pub fn key(self) -> (r: &'static str)
        ensures
            r@ == node_kind_key(self),
    {
        match self {
            NodeKind::Repository => "repository",
            NodeKind::Directory => "directory",
            NodeKind::File => "file",
            NodeKind::Module => "module",
            NodeKind::Symbol => "symbol",
            NodeKind::Import => "import",
            NodeKind::Export => "export",
            NodeKind::Package => "package",
            NodeKind::ExternalSymbol => "external-symbol",
            NodeKind::Span => "span",
            NodeKind::Chunk => "chunk",
        }
    }
}

impl EdgeKind {
    pub fn key(self) -> (r: &'static str)
        ensures
            r@ == edge_kind_key(self),
    {
        match self {
            EdgeKind::Contains => "contains",
            EdgeKind::Defines => "defines",
            EdgeKind::Imports => "imports",
            EdgeKind::Exports => "exports",
            EdgeKind::Calls => "calls",
            EdgeKind::References => "references",
            EdgeKind::Extends => "extends",
            EdgeKind::Implements => "implements",
            EdgeKind::Overrides => "overrides",
            EdgeKind::DependsOn => "depends-on",
            EdgeKind::Tests => "tests",
        }
    }
}

/// The text of an optional string.
pub open spec fn opt_view(o: Option<String>) -> Option<Seq<char>> {
    match o {
        Some(s) => Some(s@),
        None => None,
    }
}

/// The text of an optional string, empty when absent.
pub open spec fn or_empty(o: Option<Seq<char>>) -> Seq<char> {
    match o {
        Some(s) => s,
        None => Seq::empty(),
    }
}

/// The span part of node and edge ids: `start:end` in decimal, or nothing.
pub open spec fn span_key(span: Option<SourceSpan>) -> Seq<char> {
    match span {
        Some(s) => decimal(s.byte_start as nat) + seq![':'] + decimal(s.byte_end as nat),
        None => Seq::empty(),
    }
}

/// The id text of a node: the repository, the file, the kind, the language, the
/// qualified name (else the name) and the span, hashed under the prefix `node`.
pub open spec fn node_id_text(
    repo: Seq<char>,
    file: Option<Seq<char>>,
    kind: NodeKind,
    language: Language,
    name: Option<Seq<char>>,
    qualified: Option<Seq<char>>,
    span: Option<SourceSpan>,
) -> Seq<char> {
    id_text(
        "node"@,
        seq![
            repo,
            or_empty(file),
            node_kind_key(kind),
            language_key(language),
            or_empty(
                if qualified is Some {
                    qualified
                } else {
                    name
                },
            ),
            span_key(span),
        ],
    )
}

/// The id text of an edge: its kind, both ends and its span, hashed under `edge`.
pub open spec fn edge_id_text(
    kind: EdgeKind,
    from: Seq<char>,
    to: Seq<char>,
    span: Option<SourceSpan>,
) -> Seq<char> {
    id_text("edge"@, seq![edge_kind_key(kind), from, to, span_key(span)])
}

fn span_key_of(span: Option<SourceSpan>) -> (r: String)
    ensures
        r@ == span_key(span),
{
    match span {
        Some(s) => {
            let a = crate::text::decimal_of(s.byte_start as u64);
            let mut a2 = a;
            a2.push(':');
            let b = crate::text::decimal_of(s.byte_end as u64);
            let all = crate::text::concat(&a2, &b);
            crate::text::string_from(&all)
        },
        None => String::new(),
    }
}

fn copy_str(s: &str) -> (r: String)
    ensures
        r@ == s@,
{
    crate::text::string_from(&crate::text::chars_of(s))
}

fn copy_opt(o: &Option<String>) -> (r: Option<String>)
    ensures
        r == *o,
{
    match o {
        Some(s) => Some(s.clone()),
        None => None,
    }
}

/// What a graph node holds, as plain values.
pub struct NodeView {
    pub id: Seq<char>,
    pub kind: NodeKind,
    pub language: Language,
    pub name: Option<Seq<char>>,
    pub qualified_name: Option<Seq<char>>,
    pub symbol_kind: Option<SymbolKind>,
    pub file_id: Option<Seq<char>>,
    pub span: Option<SourceSpan>,
    pub provenance: FactProvenance,
    pub confidence: Confidence,
}

/// What a graph edge holds, as plain values.
pub struct EdgeView {
    pub id: Seq<char>,
    pub kind: EdgeKind,
    pub from: Seq<char>,
    pub to: Seq<char>,
    pub span: Option<SourceSpan>,
    pub provenance: FactProvenance,
    pub confidence: Confidence,
}

/// The text of an optional id.
pub open spec fn opt_id_view<T>(o: Option<crate::ids::Id<T>>) -> Option<Seq<char>> {
    match o {
        Some(i) => Some(i@),
        None => None,
    }
}

/// The node that `GraphNode::deterministic` makes.
pub open spec fn spec_node(
    repo: Seq<char>,
    file: Option<Seq<char>>,
    kind: NodeKind,
    language: Language,
    name: Option<Seq<char>>,
    qualified: Option<Seq<char>>,
    span: Option<SourceSpan>,
) -> NodeView {
    NodeView {
        id: node_id_text(repo, file, kind, language, name, qualified, span),
        kind,
        language,
        name,
        qualified_name: qualified,
        symbol_kind: None,
        file_id: file,
        span,
        provenance: FactProvenance::StructuralScanner,
        confidence: Confidence::Medium,
    }
}

/// The edge that `GraphEdge::deterministic` makes.
pub open spec fn spec_edge(kind: EdgeKind, from: Seq<char>, to: Seq<char>, span: Option<SourceSpan>) -> EdgeView {
    EdgeView {
        id: edge_id_text(kind, from, to, span),
        kind,
        from,
        to,
        span,
        provenance: FactProvenance::StructuralScanner,
        confidence: Confidence::Medium,
    }
}

#[derive(Debug)]
pub struct GraphNode {
    pub id: NodeId,
    pub kind: NodeKind,
    pub language: Language,
    pub name: Option<String>,
    pub qualified_name: Option<String>,
    pub symbol_kind: Option<SymbolKind>,
    pub file_id: Option<FileId>,
    pub span: Option<SourceSpan>,
    pub provenance: FactProvenance,
    pub confidence: Confidence,
}

impl View for GraphNode {
    type V = NodeView;

    open spec fn view(&self) -> NodeView {
        NodeView {
            id: self.id@,
            kind: self.kind,
            language: self.language,
            name: opt_view(self.name),
            qualified_name: opt_view(self.qualified_name),
            symbol_kind: self.symbol_kind,
            file_id: opt_id_view(self.file_id),
            span: self.span,
            provenance: self.provenance,
            confidence: self.confidence,
        }
    }
}

impl View for GraphEdge {
    type V = EdgeView;

    open spec fn view(&self) -> EdgeView {
        EdgeView {
            id: self.id@,
            kind: self.kind,
            from: self.from@,
            to: self.to@,
            span: self.span,
            provenance: self.provenance,
            confidence: self.confidence,
        }
    }
}

impl Clone for GraphNode {
    fn clone(&self) -> (r: Self)
        ensures
            r == *self,
    {
        let file_id = match &self.file_id {
            Some(f) => Some(f.clone()),
            None => None,
        };
        GraphNode {
            id: self.id.clone(),
            kind: self.kind,
            language: self.language,
            name: copy_opt(&self.name),
            qualified_name: copy_opt(&self.qualified_name),
            symbol_kind: self.symbol_kind,
            file_id,
            span: self.span,
            provenance: self.provenance,
            confidence: self.confidence,
        }
    }
}

impl GraphNode {
    pub fn deterministic(
        repo_id: &RepositoryId,
        file_id: Option<&FileId>,
        kind: NodeKind,
        language: Language,
        name: Option<String>,
        qualified_name: Option<String>,
        span: Option<SourceSpan>,
    ) -> (r: Self)
        ensures
            r@ == spec_node(
                repo_id@,
                match file_id {
                    Some(f) => Some(f@),
                    None => None,
                },
                kind,
                language,
                opt_view(name),
                opt_view(qualified_name),
                span,
            ),
            r.name == name,
            r.qualified_name == qualified_name,
    {
        let span_text = span_key_of(span);
        let file_text = match file_id {
            Some(f) => copy_str(f.as_str()),
            None => String::new(),
        };
        let name_text = match &qualified_name {
            Some(q) => q.clone(),
            None => match &name {
                Some(n) => n.clone(),
                None => String::new(),
            },
        };
        let mut parts: Vec<&str> = Vec::new();
        parts.push(repo_id.as_str());
        parts.push(file_text.as_str());
        parts.push(kind.key());
        parts.push(language.as_str());
        parts.push(name_text.as_str());
        parts.push(span_text.as_str());
        let id = NodeId::new("node", parts.as_slice());
        assert(str_views(parts@) =~= seq![
            repo_id@,
            or_empty(
                match file_id {
                    Some(f) => Some(f@),
                    None => None,
                },
            ),
            node_kind_key(kind),
            language_key(language),
            or_empty(
                if opt_view(qualified_name) is Some {
                    opt_view(qualified_name)
                } else {
                    opt_view(name)
                },
            ),
            span_key(span),
        ]);
        assert(id@ == id_text("node"@, str_views(parts@)));
        let ghost fv = match file_id {
            Some(f) => Some(f@),
            None => None,
        };
        let ghost sv = seq![
            repo_id@,
            or_empty(fv),
            node_kind_key(kind),
            language_key(language),
            or_empty(
                if opt_view(qualified_name) is Some {
                    opt_view(qualified_name)
                } else {
                    opt_view(name)
                },
            ),
            span_key(span),
        ];
        assert(str_views(parts@) == sv);
        assert(node_id_text(repo_id@, fv, kind, language, opt_view(name), opt_view(qualified_name), span) == id_text("node"@, sv));
        assert(id@ == node_id_text(repo_id@, fv, kind, language, opt_view(name), opt_view(qualified_name), span));
        let file_id_copy = match file_id {
            Some(f) => Some(f.clone()),
            None => None,
        };
        GraphNode {
            id,
            kind,
            language,
            name,
            qualified_name,
            symbol_kind: None,
            file_id: file_id_copy,
            span,
            provenance: FactProvenance::StructuralScanner,
            confidence: Confidence::Medium,
        }
    }

    pub fn with_symbol_kind(self, symbol_kind: SymbolKind) -> (r: Self)
        ensures
            r == (GraphNode { symbol_kind: Some(symbol_kind), ..self }),
            r@ == (NodeView { symbol_kind: Some(symbol_kind), ..self@ }),
    {
        let mut node = self;
        node.symbol_kind = Some(symbol_kind);
        node
    }

    pub fn with_fact_quality(self, provenance: FactProvenance, confidence: Confidence) -> (r: Self)
        ensures
            r == (GraphNode { provenance, confidence, ..self }),
            r@ == (NodeView { provenance, confidence, ..self@ }),
    {
        let mut node = self;
        node.provenance = provenance;
        node.confidence = confidence;
        node
    }
}

#[derive(Debug)]
pub struct GraphEdge {
    pub id: EdgeId,
    pub kind: EdgeKind,
    pub from: NodeId,
    pub to: NodeId,
    pub span: Option<SourceSpan>,
    pub provenance: FactProvenance,
    pub confidence: Confidence,
}

impl Clone for GraphEdge {
    fn clone(&self) -> (r: Self)
        ensures
            r == *self,
    {
        GraphEdge {
            id: self.id.clone(),
            kind: self.kind,
            from: self.from.clone(),
            to: self.to.clone(),
            span: self.span,
            provenance: self.provenance,
            confidence: self.confidence,
        }
    }
}

impl GraphEdge {
    pub fn deterministic(kind: EdgeKind, from: &NodeId, to: &NodeId, span: Option<SourceSpan>) -> (r: Self)
        ensures
            r@ == spec_edge(kind, from@, to@, span),
    {
        let span_text = span_key_of(span);
        let mut parts: Vec<&str> = Vec::new();
        parts.push(kind.key());
        parts.push(from.as_str());
        parts.push(to.as_str());
        parts.push(span_text.as_str());
        let id = EdgeId::new("edge", parts.as_slice());
        assert(str_views(parts@) =~= seq![
            edge_kind_key(kind),
            from@,
            to@,
            span_key(span),
        ]);
        GraphEdge {
            id,
            kind,
            from: from.clone(),
            to: to.clone(),
            span,
            provenance: FactProvenance::StructuralScanner,
            confidence: Confidence::Medium,
        }
    }

    pub fn with_fact_quality(self, provenance: FactProvenance, confidence: Confidence) -> (r: Self)
        ensures
            r == (GraphEdge { provenance, confidence, ..self }),
            r@ == (EdgeView { provenance, confidence, ..self@ }),
    {
        let mut edge = self;
        edge.provenance = provenance;
        edge.confidence = confidence;
        edge
    }
}

} // verus!

verus! {

#[derive(Debug)]
pub struct SourceFile {
    pub repo_id: RepositoryId,
    pub file_id: FileId,
    pub path: String,
    pub language: Language,
    pub fingerprint: String,
    pub text: String,
}

/// The components without the current-directory component `.`.
pub open spec fn drop_cur(cs: Seq<Seq<char>>) -> Seq<Seq<char>>
    decreases cs.len(),
{
    if cs.len() == 0 {
        cs
    } else if cs.last() == seq!['.'] {
        drop_cur(cs.drop_last())
    } else {
        drop_cur(cs.drop_last()).push(cs.last())
    }
}

/// The path of a file as it goes into its id: relative to the repository root when
/// the root's components begin the path's, normalized.
pub open spec fn relative_key(path: Seq<char>, root: Seq<char>) -> Seq<char> {
    join_slash(
        drop_cur(
            match crate::paths::spec_strip_prefix(path, root) {
                Some(rest) => rest,
                None => components(path),
            },
        ),
    )
}

/// The id text of a file.
pub open spec fn file_id_text(repo: Seq<char>, path: Seq<char>, root: Seq<char>, language: Language) -> Seq<char> {
    id_text("file"@, seq![repo, relative_key(path, root), language_key(language)])
}

/// Whether two character vectors hold the same text.
pub fn same_text(a: &Vec<char>, b: &Vec<char>) -> (r: bool)
    ensures
        r == (a@ == b@),
{
    if a.len() != b.len() {
        return false;
    }
    let mut i: usize = 0;
    while i < a.len()
        invariant
            i <= a.len() == b.len(),
            forall|j: int| 0 <= j < i ==> a@[j] == b@[j],
        decreases a.len() - i,
    {
        if a[i] != b[i] {
            return false;
        }
        i += 1;
    }
    assert(a@ =~= b@);
    true
}

fn components_begin_with(cp: &Vec<Vec<char>>, cr: &Vec<Vec<char>>) -> (r: bool)
    ensures
        r == (cr.deep_view().len() <= cp.deep_view().len() && cp.deep_view().take(
            cr.deep_view().len() as int,
        ) == cr.deep_view()),
{
    if cr.len() > cp.len() {
        return false;
    }
    let mut i: usize = 0;
    while i < cr.len()
        invariant
            i <= cr.len() <= cp.len(),
            forall|j: int| 0 <= j < i ==> cp.deep_view()[j] == cr.deep_view()[j],
        decreases cr.len() - i,
    {
        assert(cp.deep_view()[i as int] =~= cp[i as int]@);
        assert(cr.deep_view()[i as int] =~= cr[i as int]@);
        if !same_text(&cp[i], &cr[i]) {
            assert(cp.deep_view().take(cr.len() as int)[i as int] != cr.deep_view()[i as int]);
            return false;
        }
        i += 1;
    }
    assert(cp.deep_view().take(cr.len() as int) =~= cr.deep_view());
    true
}

pub(crate) fn relative_key_of(path: &str, root: &str) -> (r: String)
    ensures
        r@ == relative_key(path@, root@),
{
    let p = crate::text::chars_of(path);
    let rt = crate::text::chars_of(root);
    let cp = crate::paths::components_of(&p);
    let cr = crate::paths::components_of(&rt);
    let start: usize = if components_begin_with(&cp, &cr) {
        cr.len()
    } else {
        0
    };
    let ghost chosen = match crate::paths::spec_strip_prefix(p@, rt@) {
        Some(rest) => rest,
        None => components(p@),
    };
    assert(chosen =~= cp.deep_view().skip(start as int));
    let mut kept: Vec<Vec<char>> = Vec::new();
    let mut i: usize = start;
    assert(cp.deep_view().skip(start as int).take(0) =~= Seq::<Seq<char>>::empty());
    while i < cp.len()
        invariant
            start <= i <= cp.len(),
            kept.deep_view() == drop_cur(cp.deep_view().skip(start as int).take(i - start)),
        decreases cp.len() - i,
    {
        let ghost sub = cp.deep_view().skip(start as int).take(i + 1 - start);
        assert(sub.drop_last() =~= cp.deep_view().skip(start as int).take(i - start));
        assert(sub.last() == cp[i as int]@);
        let is_cur = cp[i].len() == 1 && cp[i][0] == '.';
        assert(is_cur == (cp[i as int]@ == seq!['.'])) by {
            if cp[i as int]@ == seq!['.'] {
                assert(cp[i as int]@.len() == 1);
            }
            if is_cur {
                assert(cp[i as int]@ =~= seq!['.']);
            }
        }
        if !is_cur {
            let seg = crate::text::slice(&cp[i], 0, cp[i].len());
            assert(seg.deep_view() =~= seg@);
            assert(seg@ =~= cp[i as int]@);
            let ghost before = kept.deep_view();
            kept.push(seg);
            assert(kept.deep_view() =~= before.push(cp[i as int]@));
        }
        i += 1;
    }
    assert(cp.deep_view().skip(start as int).take(cp.len() - start) =~= cp.deep_view().skip(
        start as int,
    ));
    crate::text::string_from(&crate::paths::join_with_slash(&kept))
}

impl SourceFile {
    pub fn new(
        repo_id: RepositoryId,
        repo_root: &str,
        path: String,
        language: Language,
        text: String,
    ) -> (r: Self)
        ensures
            r.repo_id == repo_id,
            r.file_id@ == file_id_text(repo_id@, path@, repo_root@, language),
            r.path == path,
            r.language == language,
            r.fingerprint@ == blake3_hex(encode_utf8(text@)),
            r.text == text,
    {
        let relative = relative_key_of(path.as_str(), repo_root);
        let fingerprint = blake3_hex_of(text.as_str().as_bytes());
        let mut parts: Vec<&str> = Vec::new();
        parts.push(repo_id.as_str());
        parts.push(relative.as_str());
        parts.push(language.as_str());
        let file_id = FileId::new("file", parts.as_slice());
        let ghost sv = seq![repo_id@, relative_key(path@, repo_root@), language_key(language)];
        assert(str_views(parts@) =~= sv);
        assert(file_id@ == file_id_text(repo_id@, path@, repo_root@, language));
        SourceFile { repo_id, file_id, path, language, fingerprint, text }
    }
}

#[derive(Debug, PartialEq, Eq, Structural, Clone, Copy)]
pub struct PartitionMetrics {
    pub parse_time_micros: u64,
    pub extraction_time_micros: u64,
    pub query_captures: u64,
}

impl PartitionMetrics {
    /// All metrics zero.
    pub fn zero() -> (r: Self)
        ensures
            r.parse_time_micros == 0,
            r.extraction_time_micros == 0,
            r.query_captures == 0,
    {
        PartitionMetrics { parse_time_micros: 0, extraction_time_micros: 0, query_captures: 0 }
    }
}

#[derive(Debug)]
pub struct GraphPartition {
    pub file_id: FileId,
    pub path: String,
    pub language: Language,
    pub fingerprint: String,
    pub nodes: Vec<GraphNode>,
    pub edges: Vec<GraphEdge>,
    pub diagnostics: Vec<Diagnostic>,
    pub metrics: PartitionMetrics,
}

/// What a partition holds, as plain values.
pub struct PartitionView {
    pub file_id: Seq<char>,
    pub path: Seq<char>,
    pub language: Language,
    pub fingerprint: Seq<char>,
    pub nodes: Seq<NodeView>,
    pub edges: Seq<EdgeView>,
    pub diagnostics: Seq<DiagnosticView>,
    pub metrics: PartitionMetrics,
}

pub open spec fn node_views(s: Seq<GraphNode>) -> Seq<NodeView> {
    s.map_values(|n: GraphNode| n@)
}

pub open spec fn edge_views(s: Seq<GraphEdge>) -> Seq<EdgeView> {
    s.map_values(|e: GraphEdge| e@)
}

pub open spec fn diagnostic_views(s: Seq<Diagnostic>) -> Seq<DiagnosticView> {
    s.map_values(|d: Diagnostic| d@)
}

impl View for GraphPartition {
    type V = PartitionView;

    open spec fn view(&self) -> PartitionView {
        PartitionView {
            file_id: self.file_id@,
            path: self.path@,
            language: self.language,
            fingerprint: self.fingerprint@,
            nodes: node_views(self.nodes@),
            edges: edge_views(self.edges@),
            diagnostics: diagnostic_views(self.diagnostics@),
            metrics: self.metrics,
        }
    }
}

impl GraphPartition {
    pub fn empty(file: &SourceFile) -> (r: Self)
        ensures
            r.file_id == file.file_id,
            r.path == file.path,
            r.language == file.language,
            r.fingerprint == file.fingerprint,
            r.nodes@.len() == 0,
            r.edges@.len() == 0,
            r.diagnostics@.len() == 0,
            r.metrics == PartitionMetrics::zero_spec(),
    {
        GraphPartition {
            file_id: file.file_id.clone(),
            path: file.path.clone(),
            language: file.language,
            fingerprint: file.fingerprint.clone(),
            nodes: Vec::new(),
            edges: Vec::new(),
            diagnostics: Vec::new(),
            metrics: PartitionMetrics::zero(),
        }
    }
}

impl PartitionMetrics {
    pub open spec fn zero_spec() -> Self {
        PartitionMetrics { parse_time_micros: 0, extraction_time_micros: 0, query_captures: 0 }
    }
}

#[derive(Debug)]
pub struct GraphSnapshot {
    pub partitions: Vec<GraphPartition>,
}

/// Index of the first partition of the file `file`.
pub open spec fn file_index(ps: Seq<GraphPartition>, file: Seq<char>) -> Option<int>
    decreases ps.len(),
{
    if ps.len() == 0 {
        None
    } else if ps[0].file_id@ == file {
        Some(0)
    } else {
        match file_index(ps.drop_first(), file) {
            Some(i) => Some(i + 1),
            None => None,
        }
    }
}

/// The partitions after `replacement` takes the place of the first partition of
/// its file, or is added at the end when there is none.
pub open spec fn spec_replace(ps: Seq<GraphPartition>, replacement: GraphPartition) -> Seq<
    GraphPartition,
> {
    match file_index(ps, replacement.file_id@) {
        Some(i) => ps.update(i, replacement),
        None => ps.push(replacement),
    }
}

/// What `file_index` finds.
pub proof fn lemma_file_index(ps: Seq<GraphPartition>, file: Seq<char>)
    ensures
        match file_index(ps, file) {
            Some(i) => 0 <= i < ps.len() && ps[i].file_id@ == file && forall|j: int|
                0 <= j < i ==> ps[j].file_id@ != file,
            None => forall|j: int| 0 <= j < ps.len() ==> ps[j].file_id@ != file,
        },
    decreases ps.len(),
{
    if ps.len() > 0 && ps[0].file_id@ != file {
        lemma_file_index(ps.drop_first(), file);
        assert forall|j: int| 0 < j < ps.len() implies ps[j] == ps.drop_first()[j - 1] by {}
    }
}

/// `file_index` is the first position whose partition has the file.
pub proof fn lemma_file_index_unique(ps: Seq<GraphPartition>, file: Seq<char>, i: int)
    requires
        0 <= i < ps.len(),
        ps[i].file_id@ == file,
        forall|j: int| 0 <= j < i ==> ps[j].file_id@ != file,
    ensures
        file_index(ps, file) == Some(i),
{
    lemma_file_index(ps, file);
    match file_index(ps, file) {
        Some(k) => {
            if k < i {
            } else if k > i {
            }
        },
        None => {},
    }
}

impl GraphSnapshot {
    pub fn replace_partition(&mut self, replacement: GraphPartition)
        ensures
            final(self).partitions@ == spec_replace(old(self).partitions@, replacement),
    {
        let ghost file = replacement.file_id@;
        let mut i: usize = 0;
        while i < self.partitions.len()
            invariant
                i <= self.partitions.len(),
                self.partitions@ == old(self).partitions@,
                file == replacement.file_id@,
                forall|j: int| 0 <= j < i ==> self.partitions@[j].file_id@ != file,
            decreases self.partitions.len() - i,
        {
            if self.partitions[i].file_id == replacement.file_id {
                proof {
                    lemma_file_index_unique(self.partitions@, file, i as int);
                }
                self.partitions.set(i, replacement);
                return;
            }
            i += 1;
        }
        proof {
            lemma_file_index(self.partitions@, file);
            if file_index(self.partitions@, file) is Some {
                let k = file_index(self.partitions@, file)->0;
                assert(self.partitions@[k].file_id@ != file);
            }
        }
        self.partitions.push(replacement);
    }
}

/// Replacing a partition is idempotent: replacing with the same partition again
/// changes nothing.
pub proof fn replace_partition_is_idempotent(ps: Seq<GraphPartition>, replacement: GraphPartition)
    ensures
        spec_replace(spec_replace(ps, replacement), replacement) == spec_replace(ps, replacement),
{
    let f = replacement.file_id@;
    let once = spec_replace(ps, replacement);
    lemma_file_index(ps, f);
    match file_index(ps, f) {
        Some(i) => {
            assert forall|j: int| 0 <= j < i implies once[j].file_id@ != f by {}
            lemma_file_index_unique(once, f, i);
            assert(once.update(i, replacement) =~= once);
        },
        None => {
            let n = ps.len() as int;
            assert forall|j: int| 0 <= j < n implies once[j].file_id@ != f by {}
            lemma_file_index_unique(once, f, n);
            assert(once.update(n, replacement) =~= once);
        },
    }
}

/// After a replacement the snapshot holds the replacement as the partition of its
/// file, and every partition of another file is kept.
pub proof fn replace_partition_installs(ps: Seq<GraphPartition>, replacement: GraphPartition)
    ensures
        file_index(spec_replace(ps, replacement), replacement.file_id@) matches Some(i)
            && spec_replace(ps, replacement)[i] == replacement,
        forall|j: int|
            0 <= j < ps.len() && ps[j].file_id@ != replacement.file_id@ ==> spec_replace(
                ps,
                replacement,
            )[j] == ps[j],
{
    replace_partition_is_idempotent(ps, replacement);
    let f = replacement.file_id@;
    let once = spec_replace(ps, replacement);
    lemma_file_index(ps, f);
    lemma_file_index(once, f);
    match file_index(ps, f) {
        Some(i) => {
            assert forall|j: int| 0 <= j < i implies once[j].file_id@ != f by {}
            lemma_file_index_unique(once, f, i);
        },
        None => {
            let n = ps.len() as int;
            assert forall|j: int| 0 <= j < n implies once[j].file_id@ != f by {}
            lemma_file_index_unique(once, f, n);
        },
    }
}

} // verus!
