//! Documents: one value per schema field, and the shapes that the index
//! writes and reads back.

use vstd::prelude::*;
use crate::storage::schema::{Field, NUM_FIELDS, F_DOC_TYPE};
use crate::text::str_eq;

verus! {

/// A value of a document field.
#[derive(Debug, Clone, PartialEq, Eq)]
pub enum Value {
    Str(String),
    U64(u64),
    /// A real number, as the bit pattern of a single-precision number.
    Real(u32),
}

/// The mathematical content of a [`Value`].
pub enum ValueView {
    Str(Seq<char>),
    U64(u64),
    Real(u32),
}

/// A document: for every field of the index schema, its value or nothing.
#[derive(Debug, Clone, PartialEq, Eq)]
pub struct Document {
    pub values: Vec<Option<Value>>,
}

/// The mathematical content of a [`Document`]: the value of each field, by
/// the field's position.
pub type DocView = Seq<Option<ValueView>>;

/// The keys under which counters are kept as metadata documents.
#[derive(Debug, Clone, Copy, PartialEq, Eq, Hash, Structural)]
pub enum MetadataKey {
    FileCounter,
    SymbolCounter,
}

impl View for Value {
    type V = ValueView;

    open spec fn view(&self) -> ValueView {
        match *self {
            Value::Str(s) => ValueView::Str(s@),
            Value::U64(n) => ValueView::U64(n),
            Value::Real(b) => ValueView::Real(b),
        }
    }
}

pub open spec fn opt_value_view(o: Option<Value>) -> Option<ValueView> {
    match o {
        Some(v) => Some(v@),
        None => None,
    }
}

impl View for Document {
    type V = DocView;

    open spec fn view(&self) -> DocView {
        Seq::new(self.values@.len(), |i: int| opt_value_view(self.values@[i]))
    }
}

impl MetadataKey {
    pub open spec fn spec_as_str(self) -> Seq<char> {
        match self {
            MetadataKey::FileCounter => "file_counter"@,
            MetadataKey::SymbolCounter => "symbol_counter"@,
        }
    }

    /// The key as it is written into metadata documents.
    pub fn as_str(&self) -> (r: &'static str)
        ensures
            r@ == self.spec_as_str(),
    {
        match self {
            MetadataKey::FileCounter => "file_counter",
            MetadataKey::SymbolCounter => "symbol_counter",
        }
    }
}

/// The two metadata keys are written differently.
pub proof fn lemma_metadata_keys_differ()
    ensures
        MetadataKey::FileCounter.spec_as_str() != MetadataKey::SymbolCounter.spec_as_str(),
{
    reveal_strlit("file_counter");
    reveal_strlit("symbol_counter");
    assert("file_counter"@.len() == 12);
    assert("symbol_counter"@.len() == 14);
}

// ---------------------------------------------------------------------------
// Reading a document's content
// ---------------------------------------------------------------------------

/// The text of a field, where the document holds text for it.
pub open spec fn text_at(d: DocView, f: int) -> Option<Seq<char>> {
    if 0 <= f < d.len() {
        match d[f] {
            Some(ValueView::Str(s)) => Some(s),
            _ => None,
        }
    } else {
        None
    }
}

/// The number of a field, where the document holds a number for it.
pub open spec fn num_at(d: DocView, f: int) -> Option<u64> {
    if 0 <= f < d.len() {
        match d[f] {
            Some(ValueView::U64(n)) => Some(n),
            _ => None,
        }
    } else {
        None
    }
}

/// The bit pattern of a real field, where the document holds one for it.
pub open spec fn real_at(d: DocView, f: int) -> Option<u32> {
    if 0 <= f < d.len() {
        match d[f] {
            Some(ValueView::Real(b)) => Some(b),
            _ => None,
        }
    } else {
        None
    }
}

/// The document without any value.
pub open spec fn empty_doc() -> DocView {
    Seq::new(NUM_FIELDS as nat, |i: int| None::<ValueView>)
}

pub open spec fn set_text(d: DocView, f: int, s: Seq<char>) -> DocView {
    d.update(f, Some(ValueView::Str(s)))
}

pub open spec fn set_num(d: DocView, f: int, n: u64) -> DocView {
    d.update(f, Some(ValueView::U64(n)))
}

pub open spec fn set_real(d: DocView, f: int, b: u32) -> DocView {
    d.update(f, Some(ValueView::Real(b)))
}

pub open spec fn set_opt_text(d: DocView, f: int, o: Option<Seq<char>>) -> DocView {
    match o {
        Some(s) => set_text(d, f, s),
        None => d,
    }
}

pub open spec fn set_opt_num(d: DocView, f: int, o: Option<u64>) -> DocView {
    match o {
        Some(n) => set_num(d, f, n),
        None => d,
    }
}

/// The document's type is `t`.
pub open spec fn is_doc_type(d: DocView, t: Seq<char>) -> bool {
    text_at(d, F_DOC_TYPE as int) == Some(t)
}

pub open spec fn is_symbol_doc(d: DocView) -> bool {
    is_doc_type(d, "symbol"@)
}

pub open spec fn is_relationship_doc(d: DocView) -> bool {
    is_doc_type(d, "relationship"@)
}

pub open spec fn is_file_info_doc(d: DocView) -> bool {
    is_doc_type(d, "file_info"@)
}

pub open spec fn is_import_doc(d: DocView) -> bool {
    is_doc_type(d, "import"@)
}

pub open spec fn is_metadata_doc(d: DocView) -> bool {
    is_doc_type(d, "metadata"@)
}

/// The five document types are written differently.
pub proof fn lemma_doc_types_differ()
    ensures
        "symbol"@ != "relationship"@,
        "symbol"@ != "file_info"@,
        "symbol"@ != "import"@,
        "symbol"@ != "metadata"@,
        "relationship"@ != "file_info"@,
        "relationship"@ != "import"@,
        "relationship"@ != "metadata"@,
        "file_info"@ != "import"@,
        "file_info"@ != "metadata"@,
        "import"@ != "metadata"@,
{
    reveal_strlit("symbol");
    reveal_strlit("relationship");
    reveal_strlit("file_info");
    reveal_strlit("import");
    reveal_strlit("metadata");
    assert("symbol"@.len() == 6 && "symbol"@[0] == 's');
    assert("relationship"@.len() == 12);
    assert("file_info"@.len() == 9);
    assert("import"@.len() == 6 && "import"@[0] == 'i');
    assert("metadata"@.len() == 8);
}

impl Document {
    /// The document has one slot for every field of the index schema.
    pub open spec fn wf(&self) -> bool {
        self@.len() == NUM_FIELDS
    }

    /// A document without any value.
    pub fn new() -> (r: Self)
        ensures
            r.wf(),
            r@ == empty_doc(),
    {
        let mut values: Vec<Option<Value>> = Vec::new();
        let mut i: usize = 0;
        while i < NUM_FIELDS
            invariant
                i <= NUM_FIELDS,
                values@.len() == i,
                forall|j: int| 0 <= j < i ==> values@[j] is None,
            decreases NUM_FIELDS - i,
        {
            values.push(None);
            i = i + 1;
        }
        let r = Document { values };
        proof {
            assert(r@ =~= empty_doc());
        }
        r
    }

    /// Sets the text of a field.
    pub fn add_text(&mut self, field: Field, text: &str)
        requires
            old(self).wf(),
            field.spec_index() < NUM_FIELDS,
        ensures
            final(self).wf(),
            final(self)@ == set_text(old(self)@, field.spec_index(), text@),
    {
        self.values.set(field.0 as usize, Some(Value::Str(text.to_owned())));
        proof {
            assert(self@ =~= set_text(old(self)@, field.spec_index(), text@));
        }
    }

    /// Sets the number of a field.
    pub fn add_u64(&mut self, field: Field, value: u64)
        requires
            old(self).wf(),
            field.spec_index() < NUM_FIELDS,
        ensures
            final(self).wf(),
            final(self)@ == set_num(old(self)@, field.spec_index(), value),
    {
        self.values.set(field.0 as usize, Some(Value::U64(value)));
        proof {
            assert(self@ =~= set_num(old(self)@, field.spec_index(), value));
        }
    }

    /// Sets the real number of a field, given as its bit pattern.
    pub fn add_real(&mut self, field: Field, bits: u32)
        requires
            old(self).wf(),
            field.spec_index() < NUM_FIELDS,
        ensures
            final(self).wf(),
            final(self)@ == set_real(old(self)@, field.spec_index(), bits),
    {
        self.values.set(field.0 as usize, Some(Value::Real(bits)));
        proof {
            assert(self@ =~= set_real(old(self)@, field.spec_index(), bits));
        }
    }

    /// The text of a field, where the document holds text for it.
    pub fn get_text(&self, field: Field) -> (r: Option<&str>)
        ensures
            r is Some == text_at(self@, field.spec_index()) is Some,
            r is Some ==> r->0@ == text_at(self@, field.spec_index())->0,
    {
        if (field.0 as usize) < self.values.len() {
            match &self.values[field.0 as usize] {
                Some(Value::Str(s)) => Some(s.as_str()),
                _ => None,
            }
        } else {
            None
        }
    }

    /// The number of a field, where the document holds a number for it.
    pub fn get_u64(&self, field: Field) -> (r: Option<u64>)
        ensures
            r == num_at(self@, field.spec_index()),
    {
        if (field.0 as usize) < self.values.len() {
            match &self.values[field.0 as usize] {
                Some(Value::U64(n)) => Some(*n),
                _ => None,
            }
        } else {
            None
        }
    }

    /// The bit pattern of a real field, where the document holds one.
    pub fn get_real(&self, field: Field) -> (r: Option<u32>)
        ensures
            r == real_at(self@, field.spec_index()),
    {
        if (field.0 as usize) < self.values.len() {
            match &self.values[field.0 as usize] {
                Some(Value::Real(b)) => Some(*b),
                _ => None,
            }
        } else {
            None
        }
    }

    /// Whether the text of a field is `text`.
    pub fn has_text(&self, field: Field, text: &str) -> (r: bool)
        ensures
            r == (text_at(self@, field.spec_index()) == Some(text@)),
    {
        match self.get_text(field) {
            Some(s) => str_eq(s, text),
            None => false,
        }
    }

    /// Whether the number of a field is `value`.
    pub fn has_u64(&self, field: Field, value: u64) -> (r: bool)
        ensures
            r == (num_at(self@, field.spec_index()) == Some(value)),
    {
        match self.get_u64(field) {
            Some(n) => n == value,
            None => false,
        }
    }

    /// A copy of the document.
    pub fn duplicate(&self) -> (r: Document)
        ensures
            r@ == self@,
            r.wf() == self.wf(),
    {
        let mut values: Vec<Option<Value>> = Vec::new();
        let mut i: usize = 0;
        while i < self.values.len()
            invariant
                i <= self.values.len(),
                values@.len() == i,
                forall|j: int| 0 <= j < i ==> opt_value_view(values@[j]) == opt_value_view(
                    self.values@[j],
                ),
            decreases self.values.len() - i,
        {
            let v = match &self.values[i] {
                Some(Value::Str(s)) => Some(Value::Str(s.clone())),
                Some(Value::U64(n)) => Some(Value::U64(*n)),
                Some(Value::Real(b)) => Some(Value::Real(*b)),
                None => None,
            };
            values.push(v);
            i = i + 1;
        }
        let r = Document { values };
        proof {
            assert(r@ =~= self@);
        }
        r
    }
}

} // verus!
