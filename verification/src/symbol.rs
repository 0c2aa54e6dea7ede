//! Symbols: the indexed program entities, their visibility and scope.

use vstd::prelude::*;
use vstd::string::StringExecFns;
use vstd::string::StringSliceAdditionalSpecFns;
use vstd::utf8::encode_utf8;
use crate::text::{chars_of, opt_clone, opt_view, push_char, str_eq, string_of};
use crate::types::{compact_string, CompactString, FileId, Range, SymbolId, SymbolKind};

verus! {

/// Who may see a symbol.
#[derive(Debug, Clone, Copy, PartialEq, Eq, Structural)]
pub enum Visibility {
    /// Visible everywhere.
    Public,
    /// Visible within the crate or package.
    Crate,
    /// Visible within the module.
    Module,
    /// Visible only where it is defined.
    Private,
}

/// Where in the structure of the code a symbol is defined.
#[derive(Debug, Clone, PartialEq, Eq)]
pub enum ScopeContext {
    /// Local to a function, method or block.
    Local { hoisted: bool, parent_name: Option<CompactString>, parent_kind: Option<SymbolKind> },
    /// A parameter of a function or method.
    Parameter,
    /// A member of a class, struct or trait.
    ClassMember,
    /// Defined at module or file level.
    Module,
    /// Exported at package or namespace level.
    Package,
    /// A global or builtin symbol.
    Global,
}

/// The mathematical content of a [`ScopeContext`].
pub enum ScopeContextView {
    Local { hoisted: bool, parent_name: Option<Seq<char>>, parent_kind: Option<SymbolKind> },
    Parameter,
    ClassMember,
    Module,
    Package,
    Global,
}

/// The short identifier of a programming language, such as `rust`.
#[derive(Debug, Clone, PartialEq, Eq, Hash)]
pub struct LanguageId(pub String);

/// An indexed program entity.
#[derive(Debug, Clone, PartialEq, Eq)]
pub struct Symbol {
    pub id: SymbolId,
    pub name: CompactString,
    pub kind: SymbolKind,
    pub file_id: FileId,
    pub range: Range,
    /// The path of the defining file, without line numbers.
    pub file_path: String,
    pub signature: Option<String>,
    pub doc_comment: Option<String>,
    pub module: Option<String>,
    pub visibility: Visibility,
    pub scope_context: Option<ScopeContext>,
    pub language_id: Option<LanguageId>,
}

/// The mathematical content of a [`Symbol`].
pub struct SymbolView {
    pub id: SymbolId,
    pub name: Seq<char>,
    pub kind: SymbolKind,
    pub file_id: FileId,
    pub range: Range,
    pub file_path: Seq<char>,
    pub signature: Option<Seq<char>>,
    pub doc_comment: Option<Seq<char>>,
    pub module: Option<Seq<char>>,
    pub visibility: Visibility,
    pub scope_context: Option<ScopeContextView>,
    pub language_id: Option<Seq<char>>,
}

impl View for ScopeContext {
    type V = ScopeContextView;

    open spec fn view(&self) -> ScopeContextView {
        match *self {
            ScopeContext::Local { hoisted, parent_name, parent_kind } => ScopeContextView::Local {
                hoisted,
                parent_name: opt_view(parent_name),
                parent_kind,
            },
            ScopeContext::Parameter => ScopeContextView::Parameter,
            ScopeContext::ClassMember => ScopeContextView::ClassMember,
            ScopeContext::Module => ScopeContextView::Module,
            ScopeContext::Package => ScopeContextView::Package,
            ScopeContext::Global => ScopeContextView::Global,
        }
    }
}

impl View for LanguageId {
    type V = Seq<char>;

    open spec fn view(&self) -> Seq<char> {
        self.0@
    }
}

/// The content of an optional scope.
pub open spec fn opt_scope_view(o: Option<ScopeContext>) -> Option<ScopeContextView> {
    match o {
        Some(s) => Some(s@),
        None => None,
    }
}

/// The content of an optional language.
pub open spec fn opt_language_view(o: Option<LanguageId>) -> Option<Seq<char>> {
    match o {
        Some(l) => Some(l@),
        None => None,
    }
}

impl View for Symbol {
    type V = SymbolView;

    open spec fn view(&self) -> SymbolView {
        SymbolView {
            id: self.id,
            name: self.name@,
            kind: self.kind,
            file_id: self.file_id,
            range: self.range,
            file_path: self.file_path@,
            signature: opt_view(self.signature),
            doc_comment: opt_view(self.doc_comment),
            module: opt_view(self.module),
            visibility: self.visibility,
            scope_context: opt_scope_view(self.scope_context),
            language_id: opt_language_view(self.language_id),
        }
    }
}

impl Visibility {
    /// The number under which the visibility is written into documents.
    pub open spec fn spec_code(self) -> u64 {
        match self {
            Visibility::Public => 0,
            Visibility::Crate => 1,
            Visibility::Module => 2,
            Visibility::Private => 3,
        }
    }

    /// The visibility that a stored number stands for; an unknown number
    /// reads as private.
    pub open spec fn spec_from_code(code: u64) -> Visibility {
        if code == 0 {
            Visibility::Public
        } else if code == 1 {
            Visibility::Crate
        } else if code == 2 {
            Visibility::Module
        } else {
            Visibility::Private
        }
    }

    pub fn code(&self) -> (r: u64)
        ensures
            r == self.spec_code(),
            Self::spec_from_code(r) == *self,
    {
        match self {
            Visibility::Public => 0,
            Visibility::Crate => 1,
            Visibility::Module => 2,
            Visibility::Private => 3,
        }
    }

    pub fn from_code(code: u64) -> (r: Visibility)
        ensures
            r == Self::spec_from_code(code),
    {
        if code == 0 {
            Visibility::Public
        } else if code == 1 {
            Visibility::Crate
        } else if code == 2 {
            Visibility::Module
        } else {
            Visibility::Private
        }
    }
}

impl LanguageId {
    pub fn new(id: &str) -> (r: Self)
        ensures
            r@ == id@,
    {
        LanguageId(id.to_owned())
    }

    pub fn as_str(&self) -> (r: &str)
        ensures
            r@ == self@,
    {
        self.0.as_str()
    }
}

// ---------------------------------------------------------------------------
// The canonical text of a scope
// ---------------------------------------------------------------------------

/// The letter that stands for a parent kind in the text of a local scope.
pub open spec fn kind_letter(kind: Option<SymbolKind>) -> char {
    match kind {
        None => '-',
        Some(SymbolKind::Function) => 'a',
        Some(SymbolKind::Method) => 'b',
        Some(SymbolKind::Struct) => 'c',
        Some(SymbolKind::Enum) => 'd',
        Some(SymbolKind::Trait) => 'e',
        Some(SymbolKind::Interface) => 'f',
        Some(SymbolKind::Class) => 'g',
        Some(SymbolKind::Module) => 'h',
        Some(SymbolKind::Variable) => 'i',
        Some(SymbolKind::Constant) => 'j',
        Some(SymbolKind::Field) => 'k',
        Some(SymbolKind::Parameter) => 'l',
        Some(SymbolKind::TypeAlias) => 'm',
        Some(SymbolKind::Macro) => 'n',
    }
}

/// The parent kind that a letter stands for; the outer `None` marks a letter
/// that stands for nothing.
pub open spec fn letter_kind(c: char) -> Option<Option<SymbolKind>> {
    if c == '-' {
        Some(None)
    } else if c == 'a' {
        Some(Some(SymbolKind::Function))
    } else if c == 'b' {
        Some(Some(SymbolKind::Method))
    } else if c == 'c' {
        Some(Some(SymbolKind::Struct))
    } else if c == 'd' {
        Some(Some(SymbolKind::Enum))
    } else if c == 'e' {
        Some(Some(SymbolKind::Trait))
    } else if c == 'f' {
        Some(Some(SymbolKind::Interface))
    } else if c == 'g' {
        Some(Some(SymbolKind::Class))
    } else if c == 'h' {
        Some(Some(SymbolKind::Module))
    } else if c == 'i' {
        Some(Some(SymbolKind::Variable))
    } else if c == 'j' {
        Some(Some(SymbolKind::Constant))
    } else if c == 'k' {
        Some(Some(SymbolKind::Field))
    } else if c == 'l' {
        Some(Some(SymbolKind::Parameter))
    } else if c == 'm' {
        Some(Some(SymbolKind::TypeAlias))
    } else if c == 'n' {
        Some(Some(SymbolKind::Macro))
    } else {
        None
    }
}

/// The canonical text of a scope. A local scope is written as `Local:`, a
/// digit for the hoisting, a letter for the parent's kind, `+` or `-` for
/// whether a parent name follows, and the parent name.
pub open spec fn scope_text(scope: ScopeContextView) -> Seq<char> {
    match scope {
        ScopeContextView::Local { hoisted, parent_name, parent_kind } => "Local:"@.push(
            if hoisted {
                '1'
            } else {
                '0'
            },
        ).push(kind_letter(parent_kind)).push(
            if parent_name is Some {
                '+'
            } else {
                '-'
            },
        ) + (match parent_name {
            Some(n) => n,
            None => Seq::empty(),
        }),
        ScopeContextView::Parameter => "Parameter"@,
        ScopeContextView::ClassMember => "ClassMember"@,
        ScopeContextView::Module => "Module"@,
        ScopeContextView::Package => "Package"@,
        ScopeContextView::Global => "Global"@,
    }
}

/// The scope that a text stands for, if it is the canonical text of one.
pub open spec fn scope_of_text(s: Seq<char>) -> Option<ScopeContextView> {
    if s == "Module"@ {
        Some(ScopeContextView::Module)
    } else if s == "Global"@ {
        Some(ScopeContextView::Global)
    } else if s == "Package"@ {
        Some(ScopeContextView::Package)
    } else if s == "Parameter"@ {
        Some(ScopeContextView::Parameter)
    } else if s == "ClassMember"@ {
        Some(ScopeContextView::ClassMember)
    } else if s.len() >= 9 && s.subrange(0, 6) == "Local:"@ && (s[6] == '0' || s[6] == '1')
        && letter_kind(s[7]) is Some && (s[8] == '+' || (s[8] == '-' && s.len() == 9)) {
        Some(
            ScopeContextView::Local {
                hoisted: s[6] == '1',
                parent_name: if s[8] == '+' {
                    Some(s.subrange(9, s.len() as int))
                } else {
                    None
                },
                parent_kind: letter_kind(s[7])->0,
            },
        )
    } else {
        None
    }
}

/// Reading the canonical text of a scope gives the scope back.
pub proof fn lemma_scope_text_round_trip(scope: ScopeContextView)
    ensures
        scope_of_text(scope_text(scope)) == Some(scope),
{
    reveal_strlit("Module");
    reveal_strlit("Global");
    reveal_strlit("Package");
    reveal_strlit("Parameter");
    reveal_strlit("ClassMember");
    reveal_strlit("Local:");
    assert("Module"@.len() == 6 && "Module"@[0] == 'M');
    assert("Global"@.len() == 6 && "Global"@[0] == 'G');
    assert("Package"@.len() == 7);
    assert("Parameter"@.len() == 9 && "Parameter"@[0] == 'P');
    assert("ClassMember"@.len() == 11 && "ClassMember"@[0] == 'C');
    assert("Local:"@.len() == 6 && "Local:"@[0] == 'L');
    match scope {
        ScopeContextView::Local { hoisted, parent_name, parent_kind } => {
            let s = scope_text(scope);
            let name = match parent_name {
                Some(n) => n,
                None => Seq::<char>::empty(),
            };
            let head = "Local:"@.push(
                if hoisted {
                    '1'
                } else {
                    '0'
                },
            ).push(kind_letter(parent_kind)).push(
                if parent_name is Some {
                    '+'
                } else {
                    '-'
                },
            );
            assert(s == head + name);
            assert(head.len() == 9);
            assert(s.len() == 9 + name.len());
            assert(s[0] == 'L');
            assert(s.subrange(0, 6) =~= "Local:"@);
            assert(s[6] == head[6]);
            assert(s[7] == head[7]);
            assert(s[8] == head[8]);
            assert(s.subrange(9, s.len() as int) =~= name);
            assert(letter_kind(kind_letter(parent_kind)) == Some(parent_kind));
        },
        _ => {},
    }
}

fn kind_letter_exec(kind: &Option<SymbolKind>) -> (r: char)
    ensures
        r == kind_letter(*kind),
{
    match kind {
        None => '-',
        Some(SymbolKind::Function) => 'a',
        Some(SymbolKind::Method) => 'b',
        Some(SymbolKind::Struct) => 'c',
        Some(SymbolKind::Enum) => 'd',
        Some(SymbolKind::Trait) => 'e',
        Some(SymbolKind::Interface) => 'f',
        Some(SymbolKind::Class) => 'g',
        Some(SymbolKind::Module) => 'h',
        Some(SymbolKind::Variable) => 'i',
        Some(SymbolKind::Constant) => 'j',
        Some(SymbolKind::Field) => 'k',
        Some(SymbolKind::Parameter) => 'l',
        Some(SymbolKind::TypeAlias) => 'm',
        Some(SymbolKind::Macro) => 'n',
    }
}

fn letter_kind_exec(c: char) -> (r: Option<Option<SymbolKind>>)
    ensures
        r == letter_kind(c),
{
    if c == '-' {
        Some(None)
    } else if c == 'a' {
        Some(Some(SymbolKind::Function))
    } else if c == 'b' {
        Some(Some(SymbolKind::Method))
    } else if c == 'c' {
        Some(Some(SymbolKind::Struct))
    } else if c == 'd' {
        Some(Some(SymbolKind::Enum))
    } else if c == 'e' {
        Some(Some(SymbolKind::Trait))
    } else if c == 'f' {
        Some(Some(SymbolKind::Interface))
    } else if c == 'g' {
        Some(Some(SymbolKind::Class))
    } else if c == 'h' {
        Some(Some(SymbolKind::Module))
    } else if c == 'i' {
        Some(Some(SymbolKind::Variable))
    } else if c == 'j' {
        Some(Some(SymbolKind::Constant))
    } else if c == 'k' {
        Some(Some(SymbolKind::Field))
    } else if c == 'l' {
        Some(Some(SymbolKind::Parameter))
    } else if c == 'm' {
        Some(Some(SymbolKind::TypeAlias))
    } else if c == 'n' {
        Some(Some(SymbolKind::Macro))
    } else {
        None
    }
}

impl ScopeContext {
    /// The canonical text under which the scope is written into documents.
    pub fn to_text(&self) -> (r: String)
        ensures
            r@ == scope_text(self@),
    {
        match self {
            ScopeContext::Local { hoisted, parent_name, parent_kind } => {
                let mut out = "Local:".to_owned();
                push_char(
                    &mut out,
                    if *hoisted {
                        '1'
                    } else {
                        '0'
                    },
                );
                push_char(&mut out, kind_letter_exec(parent_kind));
                match parent_name {
                    Some(n) => {
                        push_char(&mut out, '+');
                        let ghost before = out@;
                        let chars = chars_of(n.as_str());
                        let mut i: usize = 0;
                        while i < chars.len()
                            invariant
                                i <= chars.len(),
                                out@ == before + chars@.take(i as int),
                            decreases chars.len() - i,
                        {
                            push_char(&mut out, chars[i]);
                            proof {
                                assert(chars@.take(i + 1) =~= chars@.take(i as int).push(
                                    chars@[i as int],
                                ));
                                assert(before + chars@.take(i + 1) =~= (before + chars@.take(
                                    i as int,
                                )).push(chars@[i as int]));
                            }
                            i = i + 1;
                        }
                        proof {
                            assert(chars@.take(chars.len() as int) =~= chars@);
                        }
                        out
                    },
                    None => {
                        push_char(&mut out, '-');
                        proof {
                            assert(out@ + Seq::<char>::empty() =~= out@);
                        }
                        out
                    },
                }
            },
            ScopeContext::Parameter => "Parameter".to_owned(),
            ScopeContext::ClassMember => "ClassMember".to_owned(),
            ScopeContext::Module => "Module".to_owned(),
            ScopeContext::Package => "Package".to_owned(),
            ScopeContext::Global => "Global".to_owned(),
        }
    }

    /// Reads a scope from its canonical text.
    pub fn from_text(s: &str) -> (r: Option<ScopeContext>)
        ensures
            opt_scope_view(r) == scope_of_text(s@),
    {
        if str_eq(s, "Module") {
            return Some(ScopeContext::Module);
        }
        if str_eq(s, "Global") {
            return Some(ScopeContext::Global);
        }
        if str_eq(s, "Package") {
            return Some(ScopeContext::Package);
        }
        if str_eq(s, "Parameter") {
            return Some(ScopeContext::Parameter);
        }
        if str_eq(s, "ClassMember") {
            return Some(ScopeContext::ClassMember);
        }
        let chars = chars_of(s);
        let marker = chars_of("Local:");
        proof {
            reveal_strlit("Local:");
        }
        if chars.len() < 9 || !crate::text::occurs_at_exec(&chars, &marker, 0) {
            return None;
        }
        let h = chars[6];
        let k = chars[7];
        let n = chars[8];
        if !(h == '0' || h == '1') {
            return None;
        }
        let kind = match letter_kind_exec(k) {
            Some(kind) => kind,
            None => {
                return None;
            },
        };
        if n == '+' {
            let mut name_chars: Vec<char> = Vec::new();
            let mut i: usize = 9;
            while i < chars.len()
                invariant
                    9 <= i <= chars.len(),
                    name_chars@ == chars@.subrange(9, i as int),
                decreases chars.len() - i,
            {
                name_chars.push(chars[i]);
                proof {
                    assert(chars@.subrange(9, i + 1) =~= chars@.subrange(9, i as int).push(
                        chars@[i as int],
                    ));
                }
                i = i + 1;
            }
            let name = string_of(&name_chars);
            Some(ScopeContext::Local { hoisted: h == '1', parent_name: Some(name), parent_kind: kind })
        } else if n == '-' && chars.len() == 9 {
            Some(ScopeContext::Local { hoisted: h == '1', parent_name: None, parent_kind: kind })
        } else {
            None
        }
    }

    /// A copy of the scope.
    pub fn duplicate(&self) -> (r: ScopeContext)
        ensures
            r == *self,
    {
        match self {
            ScopeContext::Local { hoisted, parent_name, parent_kind } => ScopeContext::Local {
                hoisted: *hoisted,
                parent_name: opt_clone(parent_name),
                parent_kind: *parent_kind,
            },
            ScopeContext::Parameter => ScopeContext::Parameter,
            ScopeContext::ClassMember => ScopeContext::ClassMember,
            ScopeContext::Module => ScopeContext::Module,
            ScopeContext::Package => ScopeContext::Package,
            ScopeContext::Global => ScopeContext::Global,
        }
    }
}

impl Symbol {
    /// A private symbol with the given identity and place, an unknown file
    /// path and nothing else known of it.
    pub fn new(id: SymbolId, name: &str, kind: SymbolKind, file_id: FileId, range: Range) -> (r:
        Self)
        ensures
            r@ == (SymbolView {
                id,
                name: name@,
                kind,
                file_id,
                range,
                file_path: "<unknown>"@,
                signature: None,
                doc_comment: None,
                module: None,
                visibility: Visibility::Private,
                scope_context: None,
                language_id: None,
            }),
    {
        Symbol {
            id,
            name: compact_string(name),
            kind,
            file_id,
            range,
            file_path: "<unknown>".to_owned(),
            signature: None,
            doc_comment: None,
            module: None,
            visibility: Visibility::Private,
            scope_context: None,
            language_id: None,
        }
    }

    /// As [`Symbol::new`], with the scope set.
    pub fn new_with_scope(
        id: SymbolId,
        name: &str,
        kind: SymbolKind,
        file_id: FileId,
        range: Range,
        scope: ScopeContext,
    ) -> (r: Self)
        ensures
            r@ == (SymbolView {
                id,
                name: name@,
                kind,
                file_id,
                range,
                file_path: "<unknown>"@,
                signature: None,
                doc_comment: None,
                module: None,
                visibility: Visibility::Private,
                scope_context: Some(scope@),
                language_id: None,
            }),
    {
        let mut symbol = Symbol::new(id, name, kind, file_id, range);
        symbol.scope_context = Some(scope);
        symbol
    }

    pub fn with_file_path(self, file_path: &str) -> (r: Self)
        ensures
            r@ == (SymbolView { file_path: file_path@, ..self@ }),
    {
        let mut s = self;
        s.file_path = file_path.to_owned();
        s
    }

    pub fn with_signature(self, signature: &str) -> (r: Self)
        ensures
            r@ == (SymbolView { signature: Some(signature@), ..self@ }),
    {
        let mut s = self;
        s.signature = Some(signature.to_owned());
        s
    }

    pub fn with_doc(self, doc: &str) -> (r: Self)
        ensures
            r@ == (SymbolView { doc_comment: Some(doc@), ..self@ }),
    {
        let mut s = self;
        s.doc_comment = Some(doc.to_owned());
        s
    }

    pub fn with_module_path(self, path: &str) -> (r: Self)
        ensures
            r@ == (SymbolView { module: Some(path@), ..self@ }),
    {
        let mut s = self;
        s.module = Some(path.to_owned());
        s
    }

    pub fn with_visibility(self, visibility: Visibility) -> (r: Self)
        ensures
            r@ == (SymbolView { visibility, ..self@ }),
    {
        let mut s = self;
        s.visibility = visibility;
        s
    }

    pub fn with_scope(self, scope: ScopeContext) -> (r: Self)
        ensures
            r@ == (SymbolView { scope_context: Some(scope@), ..self@ }),
    {
        let mut s = self;
        s.scope_context = Some(scope);
        s
    }

    pub fn with_language_id(self, language_id: LanguageId) -> (r: Self)
        ensures
            r@ == (SymbolView { language_id: Some(language_id@), ..self@ }),
    {
        let mut s = self;
        s.language_id = Some(language_id);
        s
    }

    /// The symbol's name.
    pub fn as_name(&self) -> (r: &str)
        ensures
            r@ == self@.name,
    {
        self.name.as_str()
    }

    /// The symbol's name, consuming the symbol.
    pub fn into_name(self) -> (r: CompactString)
        ensures
            r@ == self@.name,
    {
        self.name
    }

    /// The signature, where the symbol has one.
    pub fn as_signature(&self) -> (r: Option<&str>)
        ensures
            r is Some == self@.signature is Some,
            r is Some ==> r->0@ == self@.signature->0,
    {
        match &self.signature {
            Some(s) => Some(s.as_str()),
            None => None,
        }
    }

    /// The documentation comment, where the symbol has one.
    pub fn as_doc_comment(&self) -> (r: Option<&str>)
        ensures
            r is Some == self@.doc_comment is Some,
            r is Some ==> r->0@ == self@.doc_comment->0,
    {
        match &self.doc_comment {
            Some(s) => Some(s.as_str()),
            None => None,
        }
    }

    /// The module path, where the symbol has one.
    pub fn as_module_path(&self) -> (r: Option<&str>)
        ensures
            r is Some == self@.module is Some,
            r is Some ==> r->0@ == self@.module->0,
    {
        match &self.module {
            Some(s) => Some(s.as_str()),
            None => None,
        }
    }
}

// ---------------------------------------------------------------------------
// Compact symbols
// ---------------------------------------------------------------------------

/// A symbol in fixed-size form: its name is an offset into a string table.
#[derive(Debug, Clone, Copy, PartialEq, Eq, Structural)]
pub struct CompactSymbol {
    pub name_offset: u32,
    pub kind: u8,
    pub flags: u8,
    pub file_id: u16,
    pub start_line: u32,
    pub start_col: u16,
    pub end_line: u32,
    pub end_col: u16,
    pub symbol_id: u32,
}

/// A table of interned strings. Each string stands in the table once, at
/// the offset that it would have in a buffer that holds the bytes of the
/// strings one after the other, each string followed by a zero byte, after
/// a leading zero byte. The table keeps the strings, not the buffer: only
/// an offset at which a string begins, and offset zero, lead to a string.
#[derive(Debug)]
pub struct StringTable {
    entries: Vec<(String, u32)>,
    size: usize,
}

/// The mathematical content of a [`StringTable`]: its strings with their
/// offsets, in the order in which they were interned, and the size of the
/// buffer.
pub struct StringTableView {
    pub entries: Seq<(Seq<char>, u32)>,
    pub size: usize,
}

/// The offset of the first entry, from position `from` on, that holds the
/// string.
pub open spec fn offset_from(e: Seq<(Seq<char>, u32)>, s: Seq<char>, from: int) -> Option<u32>
    decreases e.len() - from,
{
    if from < 0 || from >= e.len() {
        None
    } else if e[from].0 == s {
        Some(e[from].1)
    } else {
        offset_from(e, s, from + 1)
    }
}

/// The string of the first entry, from position `from` on, that stands at
/// the offset.
pub open spec fn string_from(e: Seq<(Seq<char>, u32)>, offset: u32, from: int) -> Option<Seq<char>>
    decreases e.len() - from,
{
    if from < 0 || from >= e.len() {
        None
    } else if e[from].1 == offset {
        Some(e[from].0)
    } else {
        string_from(e, offset, from + 1)
    }
}

/// The offset under which the table holds the string, if it holds it.
pub open spec fn offset_of(t: StringTableView, s: Seq<char>) -> Option<u32> {
    offset_from(t.entries, s, 0)
}

/// The string that the table holds at the offset. At offset zero stands the
/// empty string.
pub open spec fn string_at(t: StringTableView, offset: u32) -> Option<Seq<char>> {
    if offset == 0 {
        Some(Seq::empty())
    } else {
        string_from(t.entries, offset, 0)
    }
}

/// No two entries of the table stand at the same offset, and none at zero.
pub open spec fn offsets_distinct(t: StringTableView) -> bool {
    &&& forall|i: int| 0 <= i < t.entries.len() ==> (#[trigger] t.entries[i]).1 != 0
    &&& forall|i: int, j: int|
        0 <= i < j < t.entries.len() ==> (#[trigger] t.entries[i]).1 != (#[trigger] t.entries[j]).1
}

/// What holds of every table: the buffer holds at least its leading zero
/// byte, every string begins after that byte and before the end of the
/// buffer, and no two strings begin at the same offset.
pub open spec fn offsets_sound(t: StringTableView) -> bool {
    &&& t.size >= 1
    &&& offsets_distinct(t)
    &&& forall|i: int| 0 <= i < t.entries.len() ==> (#[trigger] t.entries[i]).1 < t.size
}

/// A string that the table does not hold can be added to it: the offset
/// at the end of the buffer is one that an offset can hold.
pub open spec fn has_room(t: StringTableView, s: Seq<char>) -> bool {
    offset_of(t, s) is None ==> t.size < u32::MAX
}

/// The table once a string is interned: as it was where it
/// holds the string already, else with the string at the end of the buffer.
pub open spec fn interned(t: StringTableView, s: Seq<char>) -> StringTableView {
    if offset_of(t, s) is Some {
        t
    } else {
        StringTableView {
            entries: t.entries.push((s, t.size as u32)),
            size: grown(t.size, encode_utf8(s).len() as usize),
        }
    }
}

/// The size of the buffer once a string of `len` bytes is added, limited to
/// what a size can hold.
pub open spec fn grown(size: usize, len: usize) -> usize {
    if len >= usize::MAX - size {
        usize::MAX
    } else {
        (size + len + 1) as usize
    }
}

impl View for StringTable {
    type V = StringTableView;

    closed spec fn view(&self) -> StringTableView {
        StringTableView {
            entries: Seq::new(
                self.entries@.len(),
                |i: int| (self.entries@[i].0@, self.entries@[i].1),
            ),
            size: self.size,
        }
    }
}

proof fn lemma_offset_from_push(
    e: Seq<(Seq<char>, u32)>,
    x: (Seq<char>, u32),
    s: Seq<char>,
    from: int,
)
    requires
        0 <= from <= e.len(),
    ensures
        offset_from(e.push(x), s, from) == (if offset_from(e, s, from) is Some {
            offset_from(e, s, from)
        } else if x.0 == s {
            Some(x.1)
        } else {
            None
        }),
    decreases e.len() - from,
{
    let b = e.push(x);
    if from == e.len() {
        assert(b[from] == x);
        assert(offset_from(b, s, from + 1) is None);
    } else {
        assert(b[from] == e[from]);
        lemma_offset_from_push(e, x, s, from + 1);
    }
}

proof fn lemma_string_from_push(
    e: Seq<(Seq<char>, u32)>,
    x: (Seq<char>, u32),
    offset: u32,
    from: int,
)
    requires
        0 <= from <= e.len(),
    ensures
        string_from(e.push(x), offset, from) == (if string_from(e, offset, from) is Some {
            string_from(e, offset, from)
        } else if x.1 == offset {
            Some(x.0)
        } else {
            None
        }),
    decreases e.len() - from,
{
    let b = e.push(x);
    if from == e.len() {
        assert(b[from] == x);
        assert(string_from(b, offset, from + 1) is None);
    } else {
        assert(b[from] == e[from]);
        lemma_string_from_push(e, x, offset, from + 1);
    }
}

proof fn lemma_none_beyond(t: StringTableView, offset: u32, from: int)
    requires
        offsets_sound(t),
        offset >= t.size,
        0 <= from,
    ensures
        string_from(t.entries, offset, from) is None,
    decreases t.entries.len() - from,
{
    if from < t.entries.len() {
        assert(t.entries[from].1 < t.size);
        lemma_none_beyond(t, offset, from + 1);
    }
}

/// Interning keeps a table sound, puts the string where its offset says,
/// and leaves every string that the table held where it was.
pub proof fn lemma_interned(t: StringTableView, s: Seq<char>)
    requires
        offsets_sound(t),
        has_room(t, s),
    ensures
        offsets_sound(interned(t, s)),
        offset_of(interned(t, s), s) is Some,
        offset_of(t, s) is None ==> offset_of(interned(t, s), s) == Some(t.size as u32),
        string_at(interned(t, s), offset_of(interned(t, s), s)->0) == Some(s),
        forall|other: Seq<char>|
            offset_of(t, other) is Some ==> offset_of(interned(t, s), other) == offset_of(
                t,
                other,
            ),
        forall|offset: u32|
            string_at(t, offset) is Some ==> string_at(interned(t, s), offset) == string_at(
                t,
                offset,
            ),
{
    let after = interned(t, s);
    if offset_of(t, s) is Some {
        lemma_string_found_at_offset(t, s);
    } else {
        let x = (s, t.size as u32);
        assert(forall|i: int| 0 <= i < t.entries.len() ==> after.entries[i] == t.entries[i]);
        assert(after.entries[t.entries.len() as int] == x);
        lemma_offset_from_push(t.entries, x, s, 0);
        lemma_string_from_push(t.entries, x, x.1, 0);
        lemma_none_beyond(t, x.1, 0);
        assert forall|other: Seq<char>| offset_of(t, other) is Some implies offset_of(
            after,
            other,
        ) == offset_of(t, other) by {
            lemma_offset_from_push(t.entries, x, other, 0);
        }
        assert forall|offset: u32| string_at(t, offset) is Some implies string_at(after, offset)
            == string_at(t, offset) by {
            lemma_string_from_push(t.entries, x, offset, 0);
        }
    }
}

/// In a table whose offsets are distinct, every string that the table holds
/// is found again at its offset.
pub proof fn lemma_string_found_at_offset(t: StringTableView, s: Seq<char>)
    requires
        offsets_distinct(t),
        offset_of(t, s) is Some,
    ensures
        string_at(t, offset_of(t, s)->0) == Some(s),
{
    lemma_found_at(t, s, 0);
}

proof fn lemma_found_at(t: StringTableView, s: Seq<char>, from: int)
    requires
        offsets_distinct(t),
        0 <= from,
        offset_from(t.entries, s, from) is Some,
    ensures
        exists|k: int|
            from <= k < t.entries.len() && (#[trigger] t.entries[k]).0 == s && t.entries[k].1
                == offset_from(t.entries, s, from)->0,
        string_from(t.entries, offset_from(t.entries, s, from)->0, 0) == Some(s),
    decreases t.entries.len() - from,
{
    let e = t.entries;
    if e[from].0 == s {
        lemma_first_at(t, from, 0);
    } else {
        lemma_found_at(t, s, from + 1);
        let k = choose|k: int|
            from + 1 <= k < e.len() && (#[trigger] e[k]).0 == s && e[k].1 == offset_from(
                e,
                s,
                from + 1,
            )->0;
        assert(from <= k < e.len() && e[k].0 == s);
    }
}

proof fn lemma_first_at(t: StringTableView, k: int, from: int)
    requires
        offsets_distinct(t),
        0 <= from <= k < t.entries.len(),
    ensures
        string_from(t.entries, t.entries[k].1, from) == Some(t.entries[k].0),
    decreases k - from,
{
    if from < k {
        assert(t.entries[from].1 != t.entries[k].1);
        lemma_first_at(t, k, from + 1);
    }
}

impl StringTable {
    #[verifier::type_invariant]
    spec fn sound(self) -> bool {
        offsets_sound(self@)
    }

    /// An empty table: its buffer holds the leading zero byte alone.
    pub fn new() -> (r: Self)
        ensures
            r@ == (StringTableView { entries: Seq::empty(), size: 1 }),
            offsets_sound(r@),
    {
        let r = StringTable { entries: Vec::new(), size: 1 };
        proof {
            assert(r@.entries =~= Seq::<(Seq<char>, u32)>::empty());
        }
        r
    }

    fn find(&self, s: &str) -> (r: Option<u32>)
        ensures
            r == offset_of(self@, s@),
    {
        let mut i: usize = 0;
        while i < self.entries.len()
            invariant
                i <= self.entries.len(),
                offset_of(self@, s@) == offset_from(self@.entries, s@, i as int),
            decreases self.entries.len() - i,
        {
            if crate::text::str_eq(self.entries[i].0.as_str(), s) {
                return Some(self.entries[i].1);
            }
            i = i + 1;
        }
        None
    }

    /// The offset of the string in the table. A string that the table does
    /// not hold yet is put at the end of the buffer, which must end where an
    /// offset can still name it. The string is then found at the offset that
    /// is returned, and every string that the table held is where it was.
    pub fn intern(&mut self, s: &str) -> (r: u32)
        requires
            has_room(old(self)@, s@),
        ensures
            offsets_sound(old(self)@),
            offsets_sound(final(self)@),
            final(self)@ == interned(old(self)@, s@),
            offset_of(final(self)@, s@) == Some(r),
            string_at(final(self)@, r) == Some(s@),
            forall|other: Seq<char>|
                offset_of(old(self)@, other) is Some ==> offset_of(final(self)@, other)
                    == offset_of(old(self)@, other),
            forall|offset: u32|
                string_at(old(self)@, offset) is Some ==> string_at(final(self)@, offset)
                    == string_at(old(self)@, offset),
    {
        proof {
            use_type_invariant(&*self);
            lemma_interned(self@, s@);
        }
        match self.find(s) {
            Some(offset) => offset,
            None => {
                let offset = self.size as u32;
                let len = s.len();
                let ghost before = self@;
                let size = if len >= usize::MAX - self.size {
                    usize::MAX
                } else {
                    self.size + len + 1
                };
                let mut entries: Vec<(String, u32)> = Vec::new();
                std::mem::swap(&mut entries, &mut self.entries);
                entries.push((s.to_owned(), offset));
                proof {
                    let now = StringTableView {
                        entries: Seq::new(
                            entries@.len(),
                            |i: int| (entries@[i].0@, entries@[i].1),
                        ),
                        size,
                    };
                    assert(now.entries =~= before.entries.push((s@, offset)));
                    assert(now == interned(before, s@));
                }
                let after = StringTable { entries, size };
                *self = after;
                offset
            },
        }
    }

    /// The size of the buffer in bytes. A table whose buffer is smaller than
    /// the largest offset has room for any string.
    pub fn size(&self) -> (r: usize)
        ensures
            r == self@.size,
            r < u32::MAX ==> forall|s: Seq<char>| has_room(self@, s),
    {
        self.size
    }

    /// The string that begins at an offset of the table; the empty string
    /// at offset zero. An offset at which no string begins gives nothing,
    /// and so does every offset past the end of the buffer.
    pub fn get(&self, offset: u32) -> (r: Option<&str>)
        ensures
            r is Some == string_at(self@, offset) is Some,
            r is Some ==> r->0@ == string_at(self@, offset)->0,
            offset >= self@.size ==> r is None,
            offsets_sound(self@),
    {
        proof {
            use_type_invariant(self);
            if offset >= self@.size {
                lemma_none_beyond(self@, offset, 0);
            }
        }
        if offset == 0 {
            proof {
                reveal_strlit("");
                assert(""@ =~= Seq::<char>::empty());
            }
            return Some("");
        }
        let mut i: usize = 0;
        while i < self.entries.len()
            invariant
                i <= self.entries.len(),
                offset != 0,
                offsets_sound(self@),
                offset >= self@.size ==> string_at(self@, offset) is None,
                string_at(self@, offset) == string_from(self@.entries, offset, i as int),
            decreases self.entries.len() - i,
        {
            if self.entries[i].1 == offset {
                return Some(self.entries[i].0.as_str());
            }
            i = i + 1;
        }
        None
    }
}

/// The compact form of a symbol whose name stands at `name_offset`.
pub open spec fn compact_of(symbol: SymbolView, name_offset: u32) -> CompactSymbol {
    CompactSymbol {
        name_offset,
        kind: symbol.kind.spec_code(),
        flags: 0,
        file_id: symbol.file_id.0 as u16,
        start_line: symbol.range.start_line,
        start_col: symbol.range.start_column,
        end_line: symbol.range.end_line,
        end_col: symbol.range.end_column,
        symbol_id: symbol.id.0,
    }
}

/// The symbol that a compact symbol stands for, given the name at its
/// offset: nothing where it has no name, an unknown kind, or a symbol or
/// file number of zero.
pub open spec fn symbol_of_compact(c: CompactSymbol, name: Option<Seq<char>>) -> Option<SymbolView> {
    if name is None || SymbolKind::spec_from_code(c.kind) is None || c.symbol_id == 0 || c.file_id
        == 0 {
        None
    } else {
        Some(
            SymbolView {
                id: SymbolId(c.symbol_id),
                name: name->0,
                kind: SymbolKind::spec_from_code(c.kind)->0,
                file_id: FileId(c.file_id as u32),
                range: Range {
                    start_line: c.start_line,
                    start_column: c.start_col,
                    end_line: c.end_line,
                    end_column: c.end_col,
                },
                file_path: "<unknown>"@,
                signature: None,
                doc_comment: None,
                module: None,
                visibility: Visibility::Private,
                scope_context: None,
                language_id: None,
            },
        )
    }
}

fn compact(symbol: &Symbol, name_offset: u32) -> (r: CompactSymbol)
    ensures
        r == compact_of(symbol@, name_offset),
{
    CompactSymbol {
        name_offset,
        kind: symbol.kind.code(),
        flags: 0,
        file_id: #[verifier::truncate]
        (symbol.file_id.value() as u16),
        start_line: symbol.range.start_line,
        start_col: symbol.range.start_column,
        end_line: symbol.range.end_line,
        end_col: symbol.range.end_column,
        symbol_id: symbol.id.value(),
    }
}

impl Symbol {
    /// The compact form of the symbol; its name is interned in the table,
    /// where it is then found at the offset that the compact form holds.
    pub fn to_compact(&self, string_table: &mut StringTable) -> (r: CompactSymbol)
        requires
            has_room(old(string_table)@, self@.name),
        ensures
            offsets_sound(final(string_table)@),
            final(string_table)@ == interned(old(string_table)@, self@.name),
            offset_of(final(string_table)@, self@.name) == Some(r.name_offset),
            string_at(final(string_table)@, r.name_offset) == Some(self@.name),
            r == compact_of(self@, r.name_offset),
            forall|other: Seq<char>|
                offset_of(old(string_table)@, other) is Some ==> offset_of(
                    final(string_table)@,
                    other,
                ) == offset_of(old(string_table)@, other),
            forall|offset: u32|
                string_at(old(string_table)@, offset) is Some ==> string_at(
                    final(string_table)@,
                    offset,
                ) == string_at(old(string_table)@, offset),
    {
        let name_offset = string_table.intern(self.name.as_str());
        compact(self, name_offset)
    }
}

impl CompactSymbol {
    /// The compact form of a symbol whose name the table holds already.
    pub fn from_symbol(symbol: &Symbol, string_table: &StringTable) -> (r: Option<Self>)
        ensures
            r == (match offset_of(string_table@, symbol@.name) {
                Some(offset) => Some(compact_of(symbol@, offset)),
                None => None,
            }),
    {
        match string_table.find(symbol.name.as_str()) {
            Some(offset) => Some(compact(symbol, offset)),
            None => None,
        }
    }

    /// The symbol that the compact symbol stands for.
    pub fn to_symbol(&self, string_table: &StringTable) -> (r: Option<Symbol>)
        ensures
            r is Some == symbol_of_compact(*self, string_at(string_table@, self.name_offset))
                is Some,
            r is Some ==> r->0@ == symbol_of_compact(
                *self,
                string_at(string_table@, self.name_offset),
            )->0,
    {
        let name = match string_table.get(self.name_offset) {
            Some(n) => n,
            None => {
                return None;
            },
        };
        let kind = match SymbolKind::from_code(self.kind) {
            Some(k) => k,
            None => {
                return None;
            },
        };
        let id = match SymbolId::new(self.symbol_id) {
            Some(i) => i,
            None => {
                return None;
            },
        };
        let file_id = match FileId::new(self.file_id as u32) {
            Some(f) => f,
            None => {
                return None;
            },
        };
        Some(
            Symbol::new(
                id,
                name,
                kind,
                file_id,
                Range::new(self.start_line, self.start_col, self.end_line, self.end_col),
            ),
        )
    }
}

/// A symbol with a file number below 65536, put into compact form and taken
/// out again, keeps its identifier, name, kind, file and range.
pub proof fn lemma_compact_round_trip(symbol: SymbolView, name_offset: u32)
    requires
        symbol.id.0 != 0,
        0 < symbol.file_id.0 < 0x10000,
    ensures
        symbol_of_compact(compact_of(symbol, name_offset), Some(symbol.name)) is Some,
        symbol_of_compact(compact_of(symbol, name_offset), Some(symbol.name))->0.id == symbol.id,
        symbol_of_compact(compact_of(symbol, name_offset), Some(symbol.name))->0.name
            == symbol.name,
        symbol_of_compact(compact_of(symbol, name_offset), Some(symbol.name))->0.kind
            == symbol.kind,
        symbol_of_compact(compact_of(symbol, name_offset), Some(symbol.name))->0.file_id
            == symbol.file_id,
        symbol_of_compact(compact_of(symbol, name_offset), Some(symbol.name))->0.range
            == symbol.range,
{
    assert(SymbolKind::spec_from_code(symbol.kind.spec_code()) == Some(symbol.kind));
}

// ---------------------------------------------------------------------------
// The description of a symbol
// ---------------------------------------------------------------------------

impl Visibility {
    /// The name of the visibility.
    pub open spec fn spec_name(self) -> Seq<char> {
        match self {
            Visibility::Public => "Public"@,
            Visibility::Crate => "Crate"@,
            Visibility::Module => "Module"@,
            Visibility::Private => "Private"@,
        }
    }

    pub fn name(&self) -> (r: &'static str)
        ensures
            r@ == self.spec_name(),
    {
        match self {
            Visibility::Public => "Public",
            Visibility::Crate => "Crate",
            Visibility::Module => "Module",
            Visibility::Private => "Private",
        }
    }
}

/// The line of a description that names an optional text: a label and the
/// text, or nothing.
pub open spec fn labelled(label: Seq<char>, text: Option<Seq<char>>) -> Seq<char> {
    match text {
        Some(t) => label + t,
        None => Seq::empty(),
    }
}

/// The documentation as a description shows it: the first hundred
/// characters, followed by three dots where there are more.
pub open spec fn shortened(doc: Seq<char>) -> Seq<char> {
    if doc.len() > 100 {
        doc.take(100) + "..."@
    } else {
        doc
    }
}

/// The place of a symbol as a description shows it: the file, then the
/// start and the end of the range, each as line and column.
pub open spec fn location_text(file_id: FileId, range: Range) -> Seq<char> {
    "\n  Location: file#"@ + crate::text::decimal_digits(file_id.0 as nat) + " "@
        + crate::text::decimal_digits(range.start_line as nat) + ":"@
        + crate::text::decimal_digits(range.start_column as nat) + "-"@
        + crate::text::decimal_digits(range.end_line as nat) + ":"@ + crate::text::decimal_digits(
        range.end_column as nat,
    )
}

/// The description of a symbol: its name, then one line each for its
/// signature, kind, visibility, place, module and documentation, as far as
/// it has them.
pub open spec fn description(s: SymbolView) -> Seq<char> {
    s.name + labelled("\n  Signature: "@, s.signature) + "\n  Kind: "@ + s.kind.spec_name()
        + "\n  Visibility: "@ + s.visibility.spec_name() + location_text(s.file_id, s.range)
        + labelled("\n  Module: "@, s.module) + labelled(
        "\n  Doc: "@,
        match s.doc_comment {
            Some(d) => Some(shortened(d)),
            None => None,
        },
    )
}

fn labelled_text(label: &str, text: &Option<String>) -> (r: String)
    ensures
        r@ == labelled(label@, opt_view(*text)),
{
    match text {
        Some(t) => crate::text::concat(label, t.as_str()),
        None => String::new(),
    }
}

fn shortened_text(doc: &str) -> (r: String)
    ensures
        r@ == shortened(doc@),
{
    let chars = chars_of(doc);
    if chars.len() <= 100 {
        return doc.to_owned();
    }
    let mut out = String::new();
    let mut i: usize = 0;
    while i < 100
        invariant
            i <= 100,
            chars@.len() > 100,
            out@ == chars@.take(i as int),
        decreases 100 - i,
    {
        push_char(&mut out, chars[i]);
        proof {
            assert(chars@.take(i + 1) =~= chars@.take(i as int).push(chars@[i as int]));
        }
        i = i + 1;
    }
    out.append("...");
    out
}

fn location(file_id: FileId, range: Range) -> (r: String)
    ensures
        r@ == location_text(file_id, range),
{
    let mut out = "\n  Location: file#".to_owned();
    out.append(crate::text::decimal_text(file_id.value() as u64).as_str());
    out.append(" ");
    out.append(crate::text::decimal_text(range.start_line as u64).as_str());
    out.append(":");
    out.append(crate::text::decimal_text(range.start_column as u64).as_str());
    out.append("-");
    out.append(crate::text::decimal_text(range.end_line as u64).as_str());
    out.append(":");
    out.append(crate::text::decimal_text(range.end_column as u64).as_str());
    out
}

impl Symbol {
    /// The description of the symbol, for display.
    pub fn describe(&self) -> (r: String)
        ensures
            r@ == description(self@),
    {
        let doc = match &self.doc_comment {
            Some(d) => Some(shortened_text(d.as_str())),
            None => None,
        };
        let mut out = self.name.clone();
        out.append(labelled_text("\n  Signature: ", &self.signature).as_str());
        out.append("\n  Kind: ");
        out.append(self.kind.name());
        out.append("\n  Visibility: ");
        out.append(self.visibility.name());
        out.append(location(self.file_id, self.range).as_str());
        out.append(labelled_text("\n  Module: ", &self.module).as_str());
        out.append(labelled_text("\n  Doc: ", &doc).as_str());
        out
    }
}

} // verus!
