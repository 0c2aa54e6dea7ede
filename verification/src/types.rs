//! Identifier newtypes, source ranges and symbol kinds.

use vstd::prelude::*;
use crate::text::str_eq;

verus! {

/// Identifier of an indexed symbol. Zero is the sentinel for "unset" and is
/// never produced by [`SymbolId::new`].
#[derive(Debug, Clone, Copy, PartialEq, Eq, Hash, Structural)]
pub struct SymbolId(pub u32);

/// Identifier of an indexed file. Zero is the sentinel for "unset".
#[derive(Debug, Clone, Copy, PartialEq, Eq, Hash, Structural)]
pub struct FileId(pub u32);

/// Whether a file was indexed afresh or found unchanged.
#[derive(Debug, Clone, Copy, PartialEq, Eq, Structural)]
pub enum IndexingResult {
    Indexed(FileId),
    Cached(FileId),
}

/// A region of source text, from a start position to an end position.
#[derive(Debug, Clone, Copy, PartialEq, Eq, Structural)]
pub struct Range {
    pub start_line: u32,
    pub start_column: u16,
    pub end_line: u32,
    pub end_column: u16,
}

/// The kind of program entity a symbol names.
#[derive(Debug, Clone, Copy, PartialEq, Eq, Hash, Structural)]
pub enum SymbolKind {
    Function,
    Method,
    Struct,
    Enum,
    Trait,
    Interface,
    Class,
    Module,
    Variable,
    Constant,
    Field,
    Parameter,
    TypeAlias,
    Macro,
}

/// Owned, compact text as stored in symbols.
pub type CompactString = String;

impl SymbolId {
    /// Wraps `value`, refusing the sentinel zero.
    pub fn new(value: u32) -> (r: Option<Self>)
        ensures
            r == (if value == 0 { None } else { Some(SymbolId(value)) }),
    {
        if value == 0 {
            None
        } else {
            Some(SymbolId(value))
        }
    }

    pub fn value(&self) -> (r: u32)
        ensures
            r == self.0,
    {
        self.0
    }

    /// The underlying number.
    pub fn to_u32(self) -> (r: u32)
        ensures
            r == self.0,
    {
        self.0
    }
}

impl FileId {
    /// Wraps `value`, refusing the sentinel zero.
    pub fn new(value: u32) -> (r: Option<Self>)
        ensures
            r == (if value == 0 { None } else { Some(FileId(value)) }),
    {
        if value == 0 {
            None
        } else {
            Some(FileId(value))
        }
    }

    pub fn value(&self) -> (r: u32)
        ensures
            r == self.0,
    {
        self.0
    }

    /// The underlying number.
    pub fn to_u32(self) -> (r: u32)
        ensures
            r == self.0,
    {
        self.0
    }
}

impl IndexingResult {
    /// The file the result is about, whichever way it was obtained.
    pub fn file_id(&self) -> (r: FileId)
        ensures
            r == (match *self {
                IndexingResult::Indexed(id) => id,
                IndexingResult::Cached(id) => id,
            }),
    {
        match self {
            IndexingResult::Indexed(id) => *id,
            IndexingResult::Cached(id) => *id,
        }
    }

    pub fn is_cached(&self) -> (r: bool)
        ensures
            r == (*self is Cached),
    {
        match self {
            IndexingResult::Cached(_) => true,
            IndexingResult::Indexed(_) => false,
        }
    }
}

impl Range {
    /// Whether `(line, column)` lies in the range: from the start position,
    /// which is inside, up to the end position, which is not. Columns bound
    /// the position only on the first and on the last line; on the lines
    /// between them every column is inside.
    pub open spec fn spec_contains(self, line: u32, column: u16) -> bool {
        &&& self.start_line <= line <= self.end_line
        &&& (line == self.start_line ==> self.start_column <= column)
        &&& (line == self.end_line ==> column < self.end_column)
    }

    pub fn new(start_line: u32, start_column: u16, end_line: u32, end_column: u16) -> (r: Self)
        ensures
            r == (Range { start_line, start_column, end_line, end_column }),
    {
        Range { start_line, start_column, end_line, end_column }
    }

    pub fn contains(&self, line: u32, column: u16) -> (r: bool)
        ensures
            r == self.spec_contains(line, column),
    {
        if line < self.start_line || line > self.end_line {
            return false;
        }
        if line == self.start_line && column < self.start_column {
            return false;
        }
        if line == self.end_line && column >= self.end_column {
            return false;
        }
        true
    }
}

impl SymbolKind {
    /// The name under which the kind is written into documents.
    pub open spec fn spec_name(self) -> Seq<char> {
        match self {
            SymbolKind::Function => "Function"@,
            SymbolKind::Method => "Method"@,
            SymbolKind::Struct => "Struct"@,
            SymbolKind::Enum => "Enum"@,
            SymbolKind::Trait => "Trait"@,
            SymbolKind::Interface => "Interface"@,
            SymbolKind::Class => "Class"@,
            SymbolKind::Module => "Module"@,
            SymbolKind::Variable => "Variable"@,
            SymbolKind::Constant => "Constant"@,
            SymbolKind::Field => "Field"@,
            SymbolKind::Parameter => "Parameter"@,
            SymbolKind::TypeAlias => "TypeAlias"@,
            SymbolKind::Macro => "Macro"@,
        }
    }

    /// The kind that a name stands for, if it is the name of a kind.
    pub open spec fn spec_parse(s: Seq<char>) -> Option<SymbolKind> {
        if s == "Function"@ {
            Some(SymbolKind::Function)
        } else if s == "Method"@ {
            Some(SymbolKind::Method)
        } else if s == "Struct"@ {
            Some(SymbolKind::Struct)
        } else if s == "Enum"@ {
            Some(SymbolKind::Enum)
        } else if s == "Trait"@ {
            Some(SymbolKind::Trait)
        } else if s == "Interface"@ {
            Some(SymbolKind::Interface)
        } else if s == "Class"@ {
            Some(SymbolKind::Class)
        } else if s == "Module"@ {
            Some(SymbolKind::Module)
        } else if s == "Variable"@ {
            Some(SymbolKind::Variable)
        } else if s == "Constant"@ {
            Some(SymbolKind::Constant)
        } else if s == "Field"@ {
            Some(SymbolKind::Field)
        } else if s == "Parameter"@ {
            Some(SymbolKind::Parameter)
        } else if s == "TypeAlias"@ {
            Some(SymbolKind::TypeAlias)
        } else if s == "Macro"@ {
            Some(SymbolKind::Macro)
        } else {
            None
        }
    }

    /// The name of the kind, as `spec_name` gives it.
    pub fn name(&self) -> (r: &'static str)
        ensures
            r@ == self.spec_name(),
    {
        match self {
            SymbolKind::Function => "Function",
            SymbolKind::Method => "Method",
            SymbolKind::Struct => "Struct",
            SymbolKind::Enum => "Enum",
            SymbolKind::Trait => "Trait",
            SymbolKind::Interface => "Interface",
            SymbolKind::Class => "Class",
            SymbolKind::Module => "Module",
            SymbolKind::Variable => "Variable",
            SymbolKind::Constant => "Constant",
            SymbolKind::Field => "Field",
            SymbolKind::Parameter => "Parameter",
            SymbolKind::TypeAlias => "TypeAlias",
            SymbolKind::Macro => "Macro",
        }
    }

    /// Reads a kind from its name.
    pub fn parse(s: &str) -> (r: Option<SymbolKind>)
        ensures
            r == Self::spec_parse(s@),
    {
        if str_eq(s, "Function") {
            Some(SymbolKind::Function)
        } else if str_eq(s, "Method") {
            Some(SymbolKind::Method)
        } else if str_eq(s, "Struct") {
            Some(SymbolKind::Struct)
        } else if str_eq(s, "Enum") {
            Some(SymbolKind::Enum)
        } else if str_eq(s, "Trait") {
            Some(SymbolKind::Trait)
        } else if str_eq(s, "Interface") {
            Some(SymbolKind::Interface)
        } else if str_eq(s, "Class") {
            Some(SymbolKind::Class)
        } else if str_eq(s, "Module") {
            Some(SymbolKind::Module)
        } else if str_eq(s, "Variable") {
            Some(SymbolKind::Variable)
        } else if str_eq(s, "Constant") {
            Some(SymbolKind::Constant)
        } else if str_eq(s, "Field") {
            Some(SymbolKind::Field)
        } else if str_eq(s, "Parameter") {
            Some(SymbolKind::Parameter)
        } else if str_eq(s, "TypeAlias") {
            Some(SymbolKind::TypeAlias)
        } else if str_eq(s, "Macro") {
            Some(SymbolKind::Macro)
        } else {
            None
        }
    }

    /// Reads a kind from its name; an unknown name gives `Function`.
    pub fn from_str_with_default(s: &str) -> (r: SymbolKind)
        ensures
            r == (match Self::spec_parse(s@) {
                Some(k) => k,
                None => SymbolKind::Function,
            }),
    {
        match Self::parse(s) {
            Some(k) => k,
            None => SymbolKind::Function,
        }
    }

    /// The position of the kind in the declaration order, from zero.
    pub open spec fn spec_code(self) -> u8 {
        match self {
            SymbolKind::Function => 0,
            SymbolKind::Method => 1,
            SymbolKind::Struct => 2,
            SymbolKind::Enum => 3,
            SymbolKind::Trait => 4,
            SymbolKind::Interface => 5,
            SymbolKind::Class => 6,
            SymbolKind::Module => 7,
            SymbolKind::Variable => 8,
            SymbolKind::Constant => 9,
            SymbolKind::Field => 10,
            SymbolKind::Parameter => 11,
            SymbolKind::TypeAlias => 12,
            SymbolKind::Macro => 13,
        }
    }

    /// The kind with the given code, if there is one.
    pub open spec fn spec_from_code(code: u8) -> Option<SymbolKind> {
        if code == 0 {
            Some(SymbolKind::Function)
        } else if code == 1 {
            Some(SymbolKind::Method)
        } else if code == 2 {
            Some(SymbolKind::Struct)
        } else if code == 3 {
            Some(SymbolKind::Enum)
        } else if code == 4 {
            Some(SymbolKind::Trait)
        } else if code == 5 {
            Some(SymbolKind::Interface)
        } else if code == 6 {
            Some(SymbolKind::Class)
        } else if code == 7 {
            Some(SymbolKind::Module)
        } else if code == 8 {
            Some(SymbolKind::Variable)
        } else if code == 9 {
            Some(SymbolKind::Constant)
        } else if code == 10 {
            Some(SymbolKind::Field)
        } else if code == 11 {
            Some(SymbolKind::Parameter)
        } else if code == 12 {
            Some(SymbolKind::TypeAlias)
        } else if code == 13 {
            Some(SymbolKind::Macro)
        } else {
            None
        }
    }

    pub fn code(&self) -> (r: u8)
        ensures
            r == self.spec_code(),
            Self::spec_from_code(r) == Some(*self),
    {
        match self {
            SymbolKind::Function => 0,
            SymbolKind::Method => 1,
            SymbolKind::Struct => 2,
            SymbolKind::Enum => 3,
            SymbolKind::Trait => 4,
            SymbolKind::Interface => 5,
            SymbolKind::Class => 6,
            SymbolKind::Module => 7,
            SymbolKind::Variable => 8,
            SymbolKind::Constant => 9,
            SymbolKind::Field => 10,
            SymbolKind::Parameter => 11,
            SymbolKind::TypeAlias => 12,
            SymbolKind::Macro => 13,
        }
    }

    pub fn from_code(code: u8) -> (r: Option<SymbolKind>)
        ensures
            r == Self::spec_from_code(code),
    {
        if code == 0 {
            Some(SymbolKind::Function)
        } else if code == 1 {
            Some(SymbolKind::Method)
        } else if code == 2 {
            Some(SymbolKind::Struct)
        } else if code == 3 {
            Some(SymbolKind::Enum)
        } else if code == 4 {
            Some(SymbolKind::Trait)
        } else if code == 5 {
            Some(SymbolKind::Interface)
        } else if code == 6 {
            Some(SymbolKind::Class)
        } else if code == 7 {
            Some(SymbolKind::Module)
        } else if code == 8 {
            Some(SymbolKind::Variable)
        } else if code == 9 {
            Some(SymbolKind::Constant)
        } else if code == 10 {
            Some(SymbolKind::Field)
        } else if code == 11 {
            Some(SymbolKind::Parameter)
        } else if code == 12 {
            Some(SymbolKind::TypeAlias)
        } else if code == 13 {
            Some(SymbolKind::Macro)
        } else {
            None
        }
    }
}

/// Every kind is read back from its own name.
pub proof fn lemma_kind_name_round_trip(kind: SymbolKind)
    ensures
        SymbolKind::spec_parse(kind.spec_name()) == Some(kind),
{
    reveal_strlit("Function");
    reveal_strlit("Method");
    reveal_strlit("Struct");
    reveal_strlit("Enum");
    reveal_strlit("Trait");
    reveal_strlit("Interface");
    reveal_strlit("Class");
    reveal_strlit("Module");
    reveal_strlit("Variable");
    reveal_strlit("Constant");
    reveal_strlit("Field");
    reveal_strlit("Parameter");
    reveal_strlit("TypeAlias");
    reveal_strlit("Macro");
    assert("Function"@.len() == 8 && "Function"@[0] == 'F' && "Function"@[1] == 'u');
    assert("Method"@.len() == 6 && "Method"@[0] == 'M' && "Method"@[1] == 'e');
    assert("Struct"@.len() == 6 && "Struct"@[0] == 'S' && "Struct"@[1] == 't');
    assert("Enum"@.len() == 4 && "Enum"@[0] == 'E' && "Enum"@[1] == 'n');
    assert("Trait"@.len() == 5 && "Trait"@[0] == 'T' && "Trait"@[1] == 'r');
    assert("Interface"@.len() == 9 && "Interface"@[0] == 'I' && "Interface"@[1] == 'n');
    assert("Class"@.len() == 5 && "Class"@[0] == 'C' && "Class"@[1] == 'l');
    assert("Module"@.len() == 6 && "Module"@[0] == 'M' && "Module"@[1] == 'o');
    assert("Variable"@.len() == 8 && "Variable"@[0] == 'V' && "Variable"@[1] == 'a');
    assert("Constant"@.len() == 8 && "Constant"@[0] == 'C' && "Constant"@[1] == 'o');
    assert("Field"@.len() == 5 && "Field"@[0] == 'F' && "Field"@[1] == 'i');
    assert("Parameter"@.len() == 9 && "Parameter"@[0] == 'P' && "Parameter"@[1] == 'a');
    assert("TypeAlias"@.len() == 9 && "TypeAlias"@[0] == 'T' && "TypeAlias"@[1] == 'y');
    assert("Macro"@.len() == 5 && "Macro"@[0] == 'M' && "Macro"@[1] == 'a');
}

/// Copies `s` into an owned compact string.
pub fn compact_string(s: &str) -> (r: CompactString)
    ensures
        r@ == s@,
{
    s.to_owned()
}

/// Hands out symbol identifiers one after the other, starting at one.
#[derive(Debug, Clone, Copy, PartialEq, Eq, Structural)]
pub struct SymbolCounter {
    next: u32,
}

impl SymbolCounter {
    /// The number that is handed out next; never zero.
    pub closed spec fn spec_next(self) -> u32 {
        self.next
    }

    #[verifier::type_invariant]
    spec fn nonzero(self) -> bool {
        self.next != 0
    }

    /// A counter that has handed out nothing yet.
    pub fn new() -> (r: Self)
        ensures
            r.spec_next() == 1,
    {
        SymbolCounter { next: 1 }
    }

    /// A counter that hands out `start` next; zero is taken as one.
    pub fn from_value(start: u32) -> (r: Self)
        ensures
            r.spec_next() == (if start == 0 {
                1u32
            } else {
                start
            }),
    {
        if start == 0 {
            SymbolCounter { next: 1 }
        } else {
            SymbolCounter { next: start }
        }
    }

    /// Hands out the next identifier. Each identifier is one more than the
    /// one handed out before it.
    pub fn next_id(&mut self) -> (r: SymbolId)
        requires
            old(self).spec_next() < u32::MAX,
        ensures
            r == SymbolId(old(self).spec_next()),
            r.0 != 0,
            final(self).spec_next() == old(self).spec_next() + 1,
    {
        proof {
            use_type_invariant(&*self);
        }
        let current = self.next;
        self.next = current + 1;
        SymbolId(current)
    }

    /// How many identifiers have been handed out, for a counter that
    /// started at one.
    pub fn current_count(&self) -> (r: u32)
        ensures
            r == self.spec_next() - 1,
    {
        proof {
            use_type_invariant(self);
        }
        self.next - 1
    }

    /// Starts again at one.
    pub fn reset(&mut self)
        ensures
            final(self).spec_next() == 1,
    {
        self.next = 1;
    }
}

} // verus!
