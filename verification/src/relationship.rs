//! Relationships between symbols: calls, inheritance, usage.

use vstd::prelude::*;
use crate::text::{opt_view, str_eq};
use crate::types::SymbolId;

verus! {

/// The kind of a directed relationship. Every kind has an inverse that reads
/// the same edge from its other end.
#[derive(Debug, Clone, Copy, PartialEq, Eq, Hash, Structural)]
pub enum RelationKind {
    Calls,
    CalledBy,
    Extends,
    ExtendedBy,
    Implements,
    ImplementedBy,
    Uses,
    UsedBy,
    Defines,
    DefinedIn,
    References,
    ReferencedBy,
}

/// Where in the source a relationship was found.
#[derive(Debug, Clone, PartialEq, Eq)]
pub struct RelationshipMetadata {
    pub line: Option<u32>,
    pub column: Option<u16>,
    pub context: Option<String>,
}

/// The mathematical content of a [`RelationshipMetadata`].
pub struct RelationshipMetadataView {
    pub line: Option<u32>,
    pub column: Option<u16>,
    pub context: Option<Seq<char>>,
}

/// A relationship of some kind, with a weight and optional source position.
/// The weight is kept as the bit pattern of a single-precision number.
#[derive(Debug, Clone, PartialEq, Eq)]
pub struct Relationship {
    pub kind: RelationKind,
    pub weight_bits: u32,
    pub metadata: Option<RelationshipMetadata>,
}

/// The mathematical content of a [`Relationship`].
pub struct RelationshipView {
    pub kind: RelationKind,
    pub weight_bits: u32,
    pub metadata: Option<RelationshipMetadataView>,
}

/// A relationship in fixed-size form.
#[derive(Debug, Clone, Copy)]
pub struct CompactRelationship {
    pub source_id: u32,
    pub target_id: u32,
    pub kind: u8,
    pub weight_bits: u32,
    pub metadata_offset: u32,
}

/// A relationship together with its two ends.
pub struct RelationshipEdge {
    pub source: SymbolId,
    pub target: SymbolId,
    pub relationship: Relationship,
}

/// The bit pattern of the weight one.
pub const DEFAULT_WEIGHT_BITS: u32 = 0x3F80_0000;

impl View for RelationshipMetadata {
    type V = RelationshipMetadataView;

    open spec fn view(&self) -> RelationshipMetadataView {
        RelationshipMetadataView {
            line: self.line,
            column: self.column,
            context: opt_view(self.context),
        }
    }
}

impl View for Relationship {
    type V = RelationshipView;

    open spec fn view(&self) -> RelationshipView {
        RelationshipView {
            kind: self.kind,
            weight_bits: self.weight_bits,
            metadata: match self.metadata {
                Some(m) => Some(m@),
                None => None,
            },
        }
    }
}

impl RelationKind {
    pub open spec fn spec_inverse(self) -> RelationKind {
        match self {
            RelationKind::Calls => RelationKind::CalledBy,
            RelationKind::CalledBy => RelationKind::Calls,
            RelationKind::Extends => RelationKind::ExtendedBy,
            RelationKind::ExtendedBy => RelationKind::Extends,
            RelationKind::Implements => RelationKind::ImplementedBy,
            RelationKind::ImplementedBy => RelationKind::Implements,
            RelationKind::Uses => RelationKind::UsedBy,
            RelationKind::UsedBy => RelationKind::Uses,
            RelationKind::Defines => RelationKind::DefinedIn,
            RelationKind::DefinedIn => RelationKind::Defines,
            RelationKind::References => RelationKind::ReferencedBy,
            RelationKind::ReferencedBy => RelationKind::References,
        }
    }

    pub open spec fn spec_is_hierarchical(self) -> bool {
        self is Extends || self is ExtendedBy || self is Implements || self is ImplementedBy
    }

    pub open spec fn spec_is_usage(self) -> bool {
        self is Calls || self is CalledBy || self is Uses || self is UsedBy || self is References
            || self is ReferencedBy
    }

    /// The name under which the kind is written into documents.
    pub open spec fn spec_name(self) -> Seq<char> {
        match self {
            RelationKind::Calls => "Calls"@,
            RelationKind::CalledBy => "CalledBy"@,
            RelationKind::Extends => "Extends"@,
            RelationKind::ExtendedBy => "ExtendedBy"@,
            RelationKind::Implements => "Implements"@,
            RelationKind::ImplementedBy => "ImplementedBy"@,
            RelationKind::Uses => "Uses"@,
            RelationKind::UsedBy => "UsedBy"@,
            RelationKind::Defines => "Defines"@,
            RelationKind::DefinedIn => "DefinedIn"@,
            RelationKind::References => "References"@,
            RelationKind::ReferencedBy => "ReferencedBy"@,
        }
    }

    /// The kind that a name stands for, if it is the name of a kind.
    pub open spec fn spec_parse(s: Seq<char>) -> Option<RelationKind> {
        if s == "Calls"@ {
            Some(RelationKind::Calls)
        } else if s == "CalledBy"@ {
            Some(RelationKind::CalledBy)
        } else if s == "Extends"@ {
            Some(RelationKind::Extends)
        } else if s == "ExtendedBy"@ {
            Some(RelationKind::ExtendedBy)
        } else if s == "Implements"@ {
            Some(RelationKind::Implements)
        } else if s == "ImplementedBy"@ {
            Some(RelationKind::ImplementedBy)
        } else if s == "Uses"@ {
            Some(RelationKind::Uses)
        } else if s == "UsedBy"@ {
            Some(RelationKind::UsedBy)
        } else if s == "Defines"@ {
            Some(RelationKind::Defines)
        } else if s == "DefinedIn"@ {
            Some(RelationKind::DefinedIn)
        } else if s == "References"@ {
            Some(RelationKind::References)
        } else if s == "ReferencedBy"@ {
            Some(RelationKind::ReferencedBy)
        } else {
            None
        }
    }

    /// The same relationship seen from its other end.
    pub fn inverse(&self) -> (r: Self)
        ensures
            r == self.spec_inverse(),
            r.spec_inverse() == *self,
    {
        match self {
            RelationKind::Calls => RelationKind::CalledBy,
            RelationKind::CalledBy => RelationKind::Calls,
            RelationKind::Extends => RelationKind::ExtendedBy,
            RelationKind::ExtendedBy => RelationKind::Extends,
            RelationKind::Implements => RelationKind::ImplementedBy,
            RelationKind::ImplementedBy => RelationKind::Implements,
            RelationKind::Uses => RelationKind::UsedBy,
            RelationKind::UsedBy => RelationKind::Uses,
            RelationKind::Defines => RelationKind::DefinedIn,
            RelationKind::DefinedIn => RelationKind::Defines,
            RelationKind::References => RelationKind::ReferencedBy,
            RelationKind::ReferencedBy => RelationKind::References,
        }
    }

    /// Whether the kind orders types: extension and implementation.
    pub fn is_hierarchical(&self) -> (r: bool)
        ensures
            r == self.spec_is_hierarchical(),
    {
        match self {
            RelationKind::Extends
            | RelationKind::ExtendedBy
            | RelationKind::Implements
            | RelationKind::ImplementedBy => true,
            _ => false,
        }
    }

    /// Whether the kind records a use: calls, uses and references.
    pub fn is_usage(&self) -> (r: bool)
        ensures
            r == self.spec_is_usage(),
    {
        match self {
            RelationKind::Calls
            | RelationKind::CalledBy
            | RelationKind::Uses
            | RelationKind::UsedBy
            | RelationKind::References
            | RelationKind::ReferencedBy => true,
            _ => false,
        }
    }

    /// The name of the kind, as `spec_name` gives it.
    pub fn name(&self) -> (r: &'static str)
        ensures
            r@ == self.spec_name(),
    {
        match self {
            RelationKind::Calls => "Calls",
            RelationKind::CalledBy => "CalledBy",
            RelationKind::Extends => "Extends",
            RelationKind::ExtendedBy => "ExtendedBy",
            RelationKind::Implements => "Implements",
            RelationKind::ImplementedBy => "ImplementedBy",
            RelationKind::Uses => "Uses",
            RelationKind::UsedBy => "UsedBy",
            RelationKind::Defines => "Defines",
            RelationKind::DefinedIn => "DefinedIn",
            RelationKind::References => "References",
            RelationKind::ReferencedBy => "ReferencedBy",
        }
    }

    /// Reads a kind from its name.
    pub fn parse(s: &str) -> (r: Option<RelationKind>)
        ensures
            r == Self::spec_parse(s@),
    {
        if str_eq(s, "Calls") {
            Some(RelationKind::Calls)
        } else if str_eq(s, "CalledBy") {
            Some(RelationKind::CalledBy)
        } else if str_eq(s, "Extends") {
            Some(RelationKind::Extends)
        } else if str_eq(s, "ExtendedBy") {
            Some(RelationKind::ExtendedBy)
        } else if str_eq(s, "Implements") {
            Some(RelationKind::Implements)
        } else if str_eq(s, "ImplementedBy") {
            Some(RelationKind::ImplementedBy)
        } else if str_eq(s, "Uses") {
            Some(RelationKind::Uses)
        } else if str_eq(s, "UsedBy") {
            Some(RelationKind::UsedBy)
        } else if str_eq(s, "Defines") {
            Some(RelationKind::Defines)
        } else if str_eq(s, "DefinedIn") {
            Some(RelationKind::DefinedIn)
        } else if str_eq(s, "References") {
            Some(RelationKind::References)
        } else if str_eq(s, "ReferencedBy") {
            Some(RelationKind::ReferencedBy)
        } else {
            None
        }
    }

    /// The position of the kind in the declaration order, from zero.
    pub fn code(&self) -> (r: u8)
        ensures
            r == self.spec_code(),
    {
        match self {
            RelationKind::Calls => 0,
            RelationKind::CalledBy => 1,
            RelationKind::Extends => 2,
            RelationKind::ExtendedBy => 3,
            RelationKind::Implements => 4,
            RelationKind::ImplementedBy => 5,
            RelationKind::Uses => 6,
            RelationKind::UsedBy => 7,
            RelationKind::Defines => 8,
            RelationKind::DefinedIn => 9,
            RelationKind::References => 10,
            RelationKind::ReferencedBy => 11,
        }
    }

    pub open spec fn spec_code(self) -> u8 {
        match self {
            RelationKind::Calls => 0,
            RelationKind::CalledBy => 1,
            RelationKind::Extends => 2,
            RelationKind::ExtendedBy => 3,
            RelationKind::Implements => 4,
            RelationKind::ImplementedBy => 5,
            RelationKind::Uses => 6,
            RelationKind::UsedBy => 7,
            RelationKind::Defines => 8,
            RelationKind::DefinedIn => 9,
            RelationKind::References => 10,
            RelationKind::ReferencedBy => 11,
        }
    }
}

/// Taking the inverse twice gives the kind back, and the inverse of a kind is
/// never the kind itself.
pub proof fn lemma_inverse_is_involution(kind: RelationKind)
    ensures
        kind.spec_inverse().spec_inverse() == kind,
        kind.spec_inverse() != kind,
        kind.spec_inverse().spec_is_hierarchical() == kind.spec_is_hierarchical(),
        kind.spec_inverse().spec_is_usage() == kind.spec_is_usage(),
{
}

/// Every relation kind is read back from its own name.
pub proof fn lemma_relation_name_round_trip(kind: RelationKind)
    ensures
        RelationKind::spec_parse(kind.spec_name()) == Some(kind),
{
    reveal_strlit("Calls");
    reveal_strlit("CalledBy");
    reveal_strlit("Extends");
    reveal_strlit("ExtendedBy");
    reveal_strlit("Implements");
    reveal_strlit("ImplementedBy");
    reveal_strlit("Uses");
    reveal_strlit("UsedBy");
    reveal_strlit("Defines");
    reveal_strlit("DefinedIn");
    reveal_strlit("References");
    reveal_strlit("ReferencedBy");
    assert("Calls"@.len() == 5 && "Calls"@[0] == 'C');
    assert("CalledBy"@.len() == 8 && "CalledBy"@[0] == 'C');
    assert("Extends"@.len() == 7 && "Extends"@[0] == 'E');
    assert("ExtendedBy"@.len() == 10 && "ExtendedBy"@[0] == 'E');
    assert("Implements"@.len() == 10 && "Implements"@[0] == 'I');
    assert("ImplementedBy"@.len() == 13);
    assert("Uses"@.len() == 4);
    assert("UsedBy"@.len() == 6);
    assert("Defines"@.len() == 7 && "Defines"@[0] == 'D');
    assert("DefinedIn"@.len() == 9);
    assert("References"@.len() == 10 && "References"@[0] == 'R');
    assert("ReferencedBy"@.len() == 12);
}

impl RelationshipMetadata {
    /// Metadata that says nothing yet.
    pub fn new() -> (r: Self)
        ensures
            r@ == (RelationshipMetadataView { line: None, column: None, context: None }),
    {
        RelationshipMetadata { line: None, column: None, context: None }
    }

    /// The same metadata with the position set.
    pub fn at_position(self, line: u32, column: u16) -> (r: Self)
        ensures
            r@ == (RelationshipMetadataView {
                line: Some(line),
                column: Some(column),
                context: self@.context,
            }),
    {
        RelationshipMetadata { line: Some(line), column: Some(column), context: self.context }
    }

    /// The same metadata with the context set.
    pub fn with_context(self, context: &str) -> (r: Self)
        ensures
            r@ == (RelationshipMetadataView {
                line: self@.line,
                column: self@.column,
                context: Some(context@),
            }),
    {
        RelationshipMetadata {
            line: self.line,
            column: self.column,
            context: Some(context.to_owned()),
        }
    }
}

impl Relationship {
    /// A relationship of the given kind with weight one and no metadata.
    pub fn new(kind: RelationKind) -> (r: Self)
        ensures
            r@ == (RelationshipView { kind, weight_bits: DEFAULT_WEIGHT_BITS, metadata: None }),
    {
        Relationship { kind, weight_bits: DEFAULT_WEIGHT_BITS, metadata: None }
    }

    /// The same relationship with the weight whose bit pattern is given.
    pub fn with_weight(self, weight_bits: u32) -> (r: Self)
        ensures
            r@ == (RelationshipView {
                kind: self@.kind,
                weight_bits,
                metadata: self@.metadata,
            }),
    {
        Relationship { kind: self.kind, weight_bits, metadata: self.metadata }
    }

    /// The same relationship with the metadata set.
    pub fn with_metadata(self, metadata: RelationshipMetadata) -> (r: Self)
        ensures
            r@ == (RelationshipView {
                kind: self@.kind,
                weight_bits: self@.weight_bits,
                metadata: Some(metadata@),
            }),
    {
        Relationship { kind: self.kind, weight_bits: self.weight_bits, metadata: Some(metadata) }
    }

    /// The fixed-size form: kind and weight, with both ends and the metadata
    /// offset left at zero for the caller to fill.
    pub fn to_compact(&self) -> (r: CompactRelationship)
        ensures
            r.source_id == 0,
            r.target_id == 0,
            r.kind == self.kind.spec_code(),
            r.weight_bits == self.weight_bits,
            r.metadata_offset == 0,
    {
        CompactRelationship {
            source_id: 0,
            target_id: 0,
            kind: self.kind.code(),
            weight_bits: self.weight_bits,
            metadata_offset: 0,
        }
    }
}

impl RelationshipEdge {
    pub fn new(source: SymbolId, target: SymbolId, relationship: Relationship) -> (r: Self)
        ensures
            r.source == source,
            r.target == target,
            r.relationship == relationship,
    {
        RelationshipEdge { source, target, relationship }
    }
}

} // verus!
