use crate::language::Language;
use crate::model::{GraphNode, NodeView, SymbolKind};
use crate::text::{chars_of, index_of, split_once, string_from};
use vstd::prelude::*;

verus! {

/// What identifies a symbol across two references: its file, language, kind, and
/// its name within the file.
#[derive(Debug)]
pub struct SymbolKey {
    pub file: String,
    pub language: Language,
    pub kind: Option<SymbolKind>,
    pub scoped_name: String,
}

impl PartialEq for SymbolKey {
    fn eq(&self, other: &Self) -> (r: bool) {
        let same_kind = match (self.kind, other.kind) {
            (Some(a), Some(b)) => a == b,
            (None, None) => true,
            _ => false,
        };
        self.file == other.file && self.language == other.language && same_kind && self.scoped_name
            == other.scoped_name
    }
}

impl vstd::std_specs::cmp::PartialEqSpecImpl for SymbolKey {
    open spec fn obeys_eq_spec() -> bool {
        true
    }

    open spec fn eq_spec(&self, other: &Self) -> bool {
        self.file@ == other.file@ && self.language == other.language && self.kind == other.kind
            && self.scoped_name@ == other.scoped_name@
    }
}

/// `qualified` without its leading file-module segment: the text after the first
/// `.`, when both sides of it are non-empty.
pub open spec fn spec_strip_file_module(qualified: Seq<char>) -> Option<Seq<char>> {
    match index_of(qualified, '.') {
        Some(k) => if k == 0 || k + 1 == qualified.len() {
            None
        } else {
            Some(qualified.skip(k + 1))
        },
        None => None,
    }
}

/// The name that identifies a symbol within its file: `$module` for the file's
/// module; else its qualified (or plain) name without the file-module segment;
/// else its plain name.
pub open spec fn spec_scoped_name(n: NodeView) -> Seq<char> {
    if n.symbol_kind == Some(SymbolKind::Module) {
        "$module"@
    } else {
        let display = match n.qualified_name {
            Some(q) => q,
            None => match n.name {
                Some(x) => x,
                None => Seq::empty(),
            },
        };
        let simple = match n.name {
            Some(x) => x,
            None => display,
        };
        match spec_strip_file_module(display) {
            Some(stripped) => if stripped.len() == 0 {
                "$module"@
            } else {
                stripped
            },
            None => simple,
        }
    }
}

/// The key of a symbol node compared under `comparison_file`.
pub open spec fn spec_symbol_key(n: NodeView, comparison_file: Seq<char>) -> (Seq<char>, Language, Option<SymbolKind>, Seq<char>) {
    (comparison_file, n.language, n.symbol_kind, spec_scoped_name(n))
}

fn strip_file_module(qualified: &[char]) -> (r: Option<Vec<char>>)
    ensures
        match r {
            Some(v) => spec_strip_file_module(qualified@) == Some(v@),
            None => spec_strip_file_module(qualified@) is None,
        },
{
    proof {
        crate::text::lemma_index_of(qualified@, '.');
    }
    match split_once(qualified, '.') {
        Some((module, rest)) => {
            if module.len() == 0 || rest.len() == 0 {
                None
            } else {
                Some(rest)
            }
        },
        None => None,
    }
}

fn scoped_name(node: &GraphNode) -> (r: String)
    ensures
        r@ == spec_scoped_name(node@),
{
    if node.symbol_kind == Some(SymbolKind::Module) {
        return String::from_str("$module");
    }
    let display = match &node.qualified_name {
        Some(q) => chars_of(q.as_str()),
        None => match &node.name {
            Some(x) => chars_of(x.as_str()),
            None => Vec::new(),
        },
    };
    let simple = match &node.name {
        Some(x) => chars_of(x.as_str()),
        None => crate::text::slice(&display, 0, display.len()),
    };
    assert(display@.subrange(0, display@.len() as int) =~= display@);
    match strip_file_module(&display) {
        Some(stripped) => if stripped.len() == 0 {
            String::from_str("$module")
        } else {
            string_from(&stripped)
        },
        None => string_from(&simple),
    }
}

/// The key of a symbol node compared under `comparison_file`.
pub fn symbol_key(node: &GraphNode, comparison_file: String) -> (r: SymbolKey)
    ensures
        (r.file@, r.language, r.kind, r.scoped_name@) == spec_symbol_key(node@, comparison_file@),
{
    SymbolKey {
        file: comparison_file,
        language: node.language,
        kind: node.symbol_kind,
        scoped_name: scoped_name(node),
    }
}

pub open spec fn spec_kind_key(kind: Option<SymbolKind>) -> Seq<char> {
    match kind {
        Some(k) => crate::diff_report::spec_symbol_kind_label(k),
        None => Seq::empty(),
    }
}

/// The text by which symbol kinds are ordered in keys.
pub fn kind_key(kind: Option<SymbolKind>) -> (r: &'static str)
    ensures
        r@ == spec_kind_key(kind),
{
    match kind {
        Some(k) => crate::diff_report::symbol_kind_label(k),
        None => {
            proof {
                reveal_strlit("");
            }
            ""
        },
    }
}

/// Two methods of the same name under different owners in one file keep
/// different keys: the owner stays in the scoped name.
pub proof fn scoped_identity_keeps_owner(a: NodeView, b: NodeView, file: Seq<char>)
    requires
        a.symbol_kind != Some(SymbolKind::Module),
        b.symbol_kind != Some(SymbolKind::Module),
        a.qualified_name matches Some(qa) && spec_strip_file_module(qa) is Some,
        b.qualified_name matches Some(qb) && spec_strip_file_module(qb) is Some,
        spec_strip_file_module(a.qualified_name->0) != spec_strip_file_module(b.qualified_name->0),
    ensures
        spec_symbol_key(a, file) != spec_symbol_key(b, file),
{
    let sa = spec_strip_file_module(a.qualified_name->0)->0;
    let sb = spec_strip_file_module(b.qualified_name->0)->0;
    crate::text::lemma_index_of(a.qualified_name->0, '.');
    crate::text::lemma_index_of(b.qualified_name->0, '.');
    assert(sa.len() > 0 && sb.len() > 0);
}

/// The file's module symbol keeps one key whatever the module is named, so a
/// renamed file's module is the same symbol.
pub proof fn module_identity_survives_rename(a: NodeView, b: NodeView, file: Seq<char>)
    requires
        a.symbol_kind == Some(SymbolKind::Module),
        b.symbol_kind == Some(SymbolKind::Module),
        a.language == b.language,
    ensures
        spec_symbol_key(a, file) == spec_symbol_key(b, file),
{
}

} // verus!
